//! What the analysis reads of an `impl` block: its attributes, its methods,
//! and of each method the name, the attributes and the arguments. Names are
//! strings, and what the analysis only hands on (types, receivers) is text.

use vstd::prelude::*;

verus! {

/// A path such as `derive` or `serde::Serialize`, as its segments.
#[derive(Debug, PartialEq, Eq)]
pub struct Path {
    pub segments: Vec<String>,
}

/// A literal. The analysis tells string literals from all others.
#[derive(Debug, PartialEq, Eq)]
pub enum Lit {
    Str(String),
    Other,
}

/// The content of an attribute.
#[derive(Debug, PartialEq, Eq)]
pub enum Meta {
    /// A path alone, as `Copy` in `derive(Copy)`.
    Path(Path),
    /// A path with a list in brackets, as `derive(Copy, Clone)`.
    List(MetaList),
    /// A path with a value, as `name = "State"`.
    NameValue(MetaNameValue),
}

/// A path with a list in brackets.
#[derive(Debug, PartialEq, Eq)]
pub struct MetaList {
    pub path: Path,
    pub nested: Vec<NestedMeta>,
}

/// A path with a value.
#[derive(Debug, PartialEq, Eq)]
pub struct MetaNameValue {
    pub path: Path,
    pub lit: Lit,
}

/// An element of the list of a `MetaList`.
#[derive(Debug, PartialEq, Eq)]
pub enum NestedMeta {
    Meta(Meta),
    Lit(Lit),
}

/// An attribute: its path, and its content where that has the form of a
/// `Meta`.
#[derive(Debug, PartialEq, Eq)]
pub struct Attribute {
    pub path: Path,
    pub meta: Option<Meta>,
}

/// A pattern. The patterns inside a tuple, a tuple struct or a struct are
/// kept; of any other pattern only its kind.
#[derive(Debug, PartialEq, Eq)]
pub enum Pat {
    Ident(String),
    Tuple(Vec<Pat>),
    TupleStruct(Vec<Pat>),
    Struct(Vec<Pat>),
    Range,
    Other,
}

/// An argument with a pattern and a type, as `input: &Event`.
#[derive(Debug, PartialEq, Eq)]
pub struct PatType {
    pub pat: Pat,
    pub ty: String,
}

/// An argument of a method.
#[derive(Debug, PartialEq, Eq)]
pub enum FnArg {
    /// The receiver, as `&mut self`.
    Receiver(String),
    /// Any other argument.
    Typed(PatType),
}

/// A method of an `impl` block.
#[derive(Debug, PartialEq, Eq)]
pub struct ImplItemMethod {
    pub attrs: Vec<Attribute>,
    pub ident: String,
    pub inputs: Vec<FnArg>,
}

/// An item of an `impl` block.
#[derive(Debug, PartialEq, Eq)]
pub enum ImplItem {
    Method(ImplItemMethod),
    Other,
}

/// An `impl` block.
#[derive(Debug, PartialEq, Eq)]
pub struct ItemImpl {
    pub attrs: Vec<Attribute>,
    pub self_ty: String,
    pub items: Vec<ImplItem>,
}

impl Path {
    /// Whether the path is the one identifier `ident`.
    pub open spec fn is_ident_spec(&self, ident: Seq<char>) -> bool {
        self.segments@.len() == 1 && self.segments@[0]@ == ident
    }

    /// Whether the path is the one identifier `ident`.
    pub fn is_ident(&self, ident: &str) -> (b: bool)
        ensures
            b == self.is_ident_spec(ident@),
    {
        self.segments.len() == 1 && self.segments[0] == ident.to_owned()
    }
}

impl Meta {
    /// The path the content begins with.
    pub open spec fn path_spec(&self) -> Path {
        match self {
            Meta::Path(path) => *path,
            Meta::List(list) => list.path,
            Meta::NameValue(pair) => pair.path,
        }
    }

    /// The path the content begins with.
    pub fn path(&self) -> (path: &Path)
        ensures
            *path == self.path_spec(),
    {
        match self {
            Meta::Path(path) => path,
            Meta::List(list) => &list.path,
            Meta::NameValue(pair) => &pair.path,
        }
    }
}

} // verus!
