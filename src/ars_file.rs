//! The file model: every construct found in one source file, by category.

use vstd::prelude::*;
use crate::syntax_elements::attributes::ARSAttribute;
use crate::syntax_elements::constants::ARSConst;
use crate::syntax_elements::enums::ARSEnum;
use crate::syntax_elements::functions::ARSFunction;
use crate::syntax_elements::impl_blocks::ARSImpl;
use crate::syntax_elements::macros::ARSMacro;
use crate::syntax_elements::modules::ARSModule;
use crate::syntax_elements::statics::ARSStatic;
use crate::syntax_elements::structs::ARSStruct;
use crate::syntax_elements::traits::ARSTrait;
use crate::syntax_elements::type_aliases::ARSTypeAlias;
use crate::syntax_elements::use_statements::ARSUse;

verus! {

/// The constructs of one file. The fields stand in the canonical category
/// order, which is also the order of reconstruction; within a field the
/// order is that of the source.
#[derive(Debug)]
pub struct ARSFile {
    pub attributes: Vec<ARSAttribute>,
    pub uses: Vec<ARSUse>,
    pub constants: Vec<ARSConst>,
    pub statics: Vec<ARSStatic>,
    pub type_aliases: Vec<ARSTypeAlias>,
    pub macros: Vec<ARSMacro>,
    pub structs: Vec<ARSStruct>,
    pub enums: Vec<ARSEnum>,
    pub traits: Vec<ARSTrait>,
    pub impl_blocks: Vec<ARSImpl>,
    pub modules: Vec<ARSModule>,
    pub functions: Vec<ARSFunction>,
}

} // verus!
