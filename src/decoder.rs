//! From the file model back to source text.

use vstd::prelude::*;
use crate::ars_file::ARSFile;
use crate::syntax_elements::{
    attributes, constants, enums, functions, impl_blocks, macros, modules, statics, structs,
    traits, type_aliases, use_statements,
};
use crate::syntax_elements::attributes::{attribute_text, ARSAttribute};
use crate::syntax_elements::constants::{const_text, ARSConst};
use crate::syntax_elements::enums::{enum_text, ARSEnum};
use crate::syntax_elements::functions::{function_text, ARSFunction};
use crate::syntax_elements::impl_blocks::{impl_text, ARSImpl};
use crate::syntax_elements::macros::{macro_text, ARSMacro};
use crate::syntax_elements::modules::{module_text, ARSModule};
use crate::syntax_elements::statics::{static_text, ARSStatic};
use crate::syntax_elements::structs::{structs_text};
use crate::syntax_elements::traits::{trait_text, ARSTrait};
use crate::syntax_elements::type_aliases::aliases_text;
use crate::syntax_elements::use_statements::uses_text;
use crate::text::{concat_all, joined};

verus! {

/// The reconstructed constants of a file.
pub open spec fn constants_text(f: ARSFile) -> Seq<char> {
    concat_all(f.constants@, |c: ARSConst| const_text(c))
}

/// The reconstructed structs of a file.
pub open spec fn struct_part(f: ARSFile) -> Seq<char> {
    structs_text(f.structs@)
}

/// What comes before the constants: the inner attributes (outer ones come
/// back with their items) and the imports.
pub open spec fn head_text(f: ARSFile) -> Seq<char> {
    concat_all(f.attributes@, |a: ARSAttribute| attribute_text(a)) + uses_text(f.uses@)
}

/// What stands between the constants and the structs.
pub open spec fn middle_text(f: ARSFile) -> Seq<char> {
    concat_all(f.statics@, |s: ARSStatic| static_text(s)) + aliases_text(f.type_aliases@)
        + joined(f.macros@.map_values(|m: ARSMacro| macro_text(m)), "\n"@)
}

/// What follows the structs.
pub open spec fn tail_text(f: ARSFile) -> Seq<char> {
    concat_all(f.enums@, |e: ARSEnum| enum_text(e)) + concat_all(
        f.traits@,
        |t: ARSTrait| trait_text(t),
    ) + concat_all(f.impl_blocks@, |b: ARSImpl| impl_text(b)) + joined(
        f.modules@.map_values(|d: ARSModule| module_text(d)),
        "\n"@,
    ) + concat_all(f.functions@, |g: ARSFunction| function_text(g))
}

/// The source text of a file model: each category's reconstruction, in the
/// canonical order attributes, imports, constants, statics, type aliases,
/// macros, structs, enums, traits, implementation blocks, modules,
/// functions.
pub open spec fn file_text(f: ARSFile) -> Seq<char> {
    head_text(f) + constants_text(f) + middle_text(f) + struct_part(f) + tail_text(f)
}

/// The source text of a file model (see `file_text`).
pub fn decode(ars_file: &ARSFile) -> (r: String)
    ensures
        r@ == file_text(*ars_file),
{
    let mut out = String::new();
    out.append(attributes::reconstruct(ars_file.attributes.as_slice()).as_str());
    out.append(use_statements::reconstruct(ars_file.uses.as_slice()).as_str());
    out.append(constants::reconstruct(ars_file.constants.as_slice()).as_str());
    out.append(statics::reconstruct(ars_file.statics.as_slice()).as_str());
    out.append(type_aliases::reconstruct(ars_file.type_aliases.as_slice()).as_str());
    out.append(macros::reconstruct(ars_file.macros.as_slice()).as_str());
    out.append(structs::reconstruct(ars_file.structs.as_slice()).as_str());
    out.append(enums::reconstruct(ars_file.enums.as_slice()).as_str());
    out.append(traits::reconstruct(ars_file.traits.as_slice()).as_str());
    out.append(impl_blocks::reconstruct(ars_file.impl_blocks.as_slice()).as_str());
    out.append(modules::reconstruct(ars_file.modules.as_slice()).as_str());
    out.append(functions::reconstruct(ars_file.functions.as_slice()).as_str());
    assert(out@ =~= file_text(*ars_file));
    out
}

/// Whatever their order in the source, the reconstructed constants of a
/// file come before its reconstructed structs: the category order wins
/// over the order of appearance.
pub proof fn constants_before_structs(f: ARSFile)
    ensures
        exists|a: Seq<char>, b: Seq<char>, c: Seq<char>|
            file_text(f) == a + constants_text(f) + b + struct_part(f) + c,
{
    let a = head_text(f);
    let b = middle_text(f);
    let c = tail_text(f);
    assert(file_text(f) == a + constants_text(f) + b + struct_part(f) + c);
}

} // verus!
