//! From source text to the file model.

use vstd::prelude::*;
use crate::ars_file::ARSFile;
use crate::pattern::found;
use crate::syntax_elements::{
    attributes, constants, enums, functions, impl_blocks, macros, modules, statics, structs,
    traits, type_aliases, use_statements,
};
use crate::syntax_elements::attributes::{
    attributes_fit, INNER_ATTRIBUTE_PATTERN, OUTER_ATTRIBUTE_PATTERN,
};
use crate::syntax_elements::constants::{consts_fit, CONST_PATTERN};
use crate::syntax_elements::enums::{enums_fit, ENUM_PATTERN};
use crate::syntax_elements::functions::{functions_fit, FUNCTION_PATTERN};
use crate::syntax_elements::impl_blocks::{impls_fit, IMPL_PATTERN, TRAIT_IMPL_PATTERN};
use crate::syntax_elements::macros::{macros_fit, MACRO_PATTERN};
use crate::syntax_elements::modules::{modules_fit, MODULE_PATTERN};
use crate::syntax_elements::statics::{statics_fit, STATIC_PATTERN};
use crate::syntax_elements::structs::{structs_fit, STRUCT_PATTERN};
use crate::syntax_elements::traits::{traits_fit, TRAIT_PATTERN};
use crate::syntax_elements::type_aliases::{aliases_fit, TYPE_ALIAS_PATTERN};
use crate::syntax_elements::use_statements::{uses_fit, EXTERN_PATTERN, USE_PATTERN};
use crate::text::{joined, push_joined, texts};

verus! {

/// `f` holds what each extractor finds in `s`, category by category.
pub open spec fn file_fits(f: ARSFile, s: Seq<char>) -> bool {
    &&& attributes_fit(
        f.attributes@,
        found(OUTER_ATTRIBUTE_PATTERN@, s),
        found(INNER_ATTRIBUTE_PATTERN@, s),
    )
    &&& uses_fit(f.uses@, found(USE_PATTERN@, s), found(EXTERN_PATTERN@, s))
    &&& consts_fit(f.constants@, found(CONST_PATTERN@, s))
    &&& statics_fit(f.statics@, found(STATIC_PATTERN@, s))
    &&& aliases_fit(f.type_aliases@, found(TYPE_ALIAS_PATTERN@, s))
    &&& macros_fit(f.macros@, found(MACRO_PATTERN@, s))
    &&& structs_fit(f.structs@, found(STRUCT_PATTERN@, s))
    &&& enums_fit(f.enums@, found(ENUM_PATTERN@, s))
    &&& traits_fit(f.traits@, found(TRAIT_PATTERN@, s))
    &&& impls_fit(f.impl_blocks@, found(TRAIT_IMPL_PATTERN@, s), found(IMPL_PATTERN@, s))
    &&& modules_fit(f.modules@, found(MODULE_PATTERN@, s))
    &&& functions_fit(f.functions@, found(FUNCTION_PATTERN@, s))
}

/// The file model of the source whose lines are `source_lines`; each
/// extractor scans the whole text on its own.
pub fn encode(source_lines: &[String]) -> (r: ARSFile)
    ensures
        file_fits(r, joined(texts(source_lines@), "\n"@)),
{
    let mut source = String::new();
    push_joined(&mut source, source_lines, "\n");
    let s = source.as_str();
    ARSFile {
        attributes: attributes::encode_rust(s),
        uses: use_statements::extract_ars_uses(s),
        constants: constants::extract_ars_consts(s),
        statics: statics::extract_ars_statics(s),
        type_aliases: type_aliases::extract_ars_type_aliases(s),
        macros: macros::extract_ars_macros(s),
        structs: structs::extract_ars_structs(s),
        enums: enums::extract_ars_enums(s),
        traits: traits::extract_ars_traits(s),
        impl_blocks: impl_blocks::extract_ars_impls(s),
        modules: modules::extract_ars_modules(s),
        functions: functions::extract_ars_functions(s),
    }
}

} // verus!
