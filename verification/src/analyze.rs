//! The analysis of an annotated `impl` block: which of its methods are
//! states, superstates and actions, what each is given, and how the state
//! and superstate types are to be named and derived.

use crate::syntax::{
    Attribute, FnArg, ImplItem, ImplItemMethod, ItemImpl, Lit, Meta, NestedMeta, Pat, Path,
};
use vstd::hash_map::StringHashMap;
use vstd::prelude::*;

verus! {

/// Why an `impl` block cannot be analysed.
#[derive(Debug, Clone, Copy, PartialEq, Eq, Structural)]
pub enum AnalyzeError {
    /// The value of `name` is no string literal.
    ExpectedStringLiteral,
    /// An element of a `derive` list is a literal.
    ExpectedListOfTraits,
    /// An attribute holds something the analysis does not know.
    UnknownAttribute,
    /// An argument is a tuple pattern.
    TuplePattern,
    /// An argument is a tuple struct pattern.
    TupleStructPattern,
    /// An argument is a struct pattern.
    StructPattern,
    /// An argument is a pattern of any other kind but an identifier.
    UnsupportedPattern,
    /// A pattern holds a pattern whose identifiers cannot be listed.
    UnsupportedPatternType,
}

impl AnalyzeError {
    /// The words that say what is wrong.
    pub open spec fn message_spec(&self) -> Seq<char> {
        match self {
            AnalyzeError::ExpectedStringLiteral => "expected string literal"@,
            AnalyzeError::ExpectedListOfTraits => "expected list of traits"@,
            AnalyzeError::UnknownAttribute => "unknown attribute"@,
            AnalyzeError::TuplePattern => "tuple patterns are not supported"@,
            AnalyzeError::TupleStructPattern => "tuple struct patterns are not supported"@,
            AnalyzeError::StructPattern => "struct patterns are not supported"@,
            AnalyzeError::UnsupportedPattern => "patterns are not supported"@,
            AnalyzeError::UnsupportedPatternType => "pattern type is not supported"@,
        }
    }

    /// The words that say what is wrong.
    pub fn message(&self) -> (text: &'static str)
        ensures
            text@ == self.message_spec(),
    {
        match self {
            AnalyzeError::ExpectedStringLiteral => "expected string literal",
            AnalyzeError::ExpectedListOfTraits => "expected list of traits",
            AnalyzeError::UnknownAttribute => "unknown attribute",
            AnalyzeError::TuplePattern => "tuple patterns are not supported",
            AnalyzeError::TupleStructPattern => "tuple struct patterns are not supported",
            AnalyzeError::StructPattern => "struct patterns are not supported",
            AnalyzeError::UnsupportedPattern => "patterns are not supported",
            AnalyzeError::UnsupportedPatternType => "pattern type is not supported",
        }
    }
}

/// The values that the references of a sequence refer to.
pub open spec fn referents<T>(references: Seq<&T>) -> Seq<T> {
    references.map_values(|reference: &T| *reference)
}

/// The meta of a list element, where it is one.
pub open spec fn nested_meta(nested: NestedMeta) -> Option<Meta> {
    match nested {
        NestedMeta::Meta(meta) => Some(meta),
        NestedMeta::Lit(_) => None,
    }
}

/// The metas among the elements of a list, in their order.
pub open spec fn nested_metas(nested: Seq<NestedMeta>) -> Seq<Meta> {
    nested.filter_map(|element: NestedMeta| nested_meta(element))
}

/// The metas that an attribute lists, where it is named `name` and its
/// content is a list; none otherwise.
pub open spec fn attribute_metas(attr: Attribute, name: Seq<char>) -> Seq<Meta> {
    match attr.meta {
        Some(Meta::List(list)) => if attr.path.is_ident_spec(name) {
            nested_metas(list.nested@)
        } else {
            Seq::empty()
        },
        _ => Seq::empty(),
    }
}

/// The metas that the attributes named `name` list, in their order.
pub open spec fn get_meta_spec(attrs: Seq<Attribute>, name: Seq<char>) -> Seq<Meta> {
    attrs.map_values(|attr: Attribute| attribute_metas(attr, name)).flatten_alt()
}

/// The metas that the attributes named `name` list, in their order.
pub fn get_meta<'a>(attrs: &'a Vec<Attribute>, name: &str) -> (metas: Vec<&'a Meta>)
    ensures
        referents(metas@) == get_meta_spec(attrs@, name@),
{
    let mut metas: Vec<&'a Meta> = Vec::new();
    let mut i: usize = 0;
    while i < attrs.len()
        invariant
            i <= attrs.len(),
            referents(metas@) == get_meta_spec(attrs@.take(i as int), name@),
        decreases attrs.len() - i,
    {
        let attr = &attrs[i];
        let ghost before = metas@;
        proof {
            let listed = |attr: Attribute| attribute_metas(attr, name@);
            assert(attrs@.take(i + 1).map_values(listed).drop_last() =~= attrs@.take(
                i as int,
            ).map_values(listed));
        }
        if attr.path.is_ident(name) {
            match &attr.meta {
                Some(Meta::List(list)) => {
                    let mut j: usize = 0;
                    while j < list.nested.len()
                        invariant
                            j <= list.nested.len(),
                            referents(metas@) == referents(before) + nested_metas(
                                list.nested@.take(j as int),
                            ),
                        decreases list.nested.len() - j,
                    {
                        let ghost listed = metas@;
                        match &list.nested[j] {
                            NestedMeta::Meta(meta) => {
                                metas.push(meta);
                                assert(referents(metas@) =~= referents(listed).push(*meta));
                            },
                            NestedMeta::Lit(_) => {},
                        }
                        proof {
                            let next = list.nested@.take(j + 1);
                            assert(next.drop_last() =~= list.nested@.take(j as int));
                            assert(referents(metas@) =~= referents(before) + nested_metas(next));
                        }
                        j = j + 1;
                    }
                    proof {
                        assert(list.nested@.take(j as int) =~= list.nested@);
                    }
                },
                _ => {},
            }
        }
        i = i + 1;
    }
    proof {
        assert(attrs@.take(i as int) =~= attrs@);
    }
    metas
}

/// The texts of a sequence of strings.
pub open spec fn texts(names: Seq<String>) -> Seq<Seq<char>> {
    names.map_values(|name: String| name@)
}

/// The identifiers that a pattern binds, in their order: the identifier
/// itself, those of the patterns inside a tuple, a tuple struct or a struct,
/// and none for a range. `None` where the pattern is, or holds, one of
/// another kind.
pub open spec fn pat_idents(pat: Pat) -> Option<Seq<Seq<char>>>
    decreases pat,
{
    match pat {
        Pat::Ident(name) => Some(seq![name@]),
        Pat::Tuple(elems) => pats_idents(elems@),
        Pat::TupleStruct(elems) => pats_idents(elems@),
        Pat::Struct(fields) => pats_idents(fields@),
        Pat::Range => Some(Seq::empty()),
        Pat::Other => None,
    }
}

/// The identifiers that the patterns bind, in their order; `None` where
/// `pat_idents` is `None` of one of them.
pub open spec fn pats_idents(pats: Seq<Pat>) -> Option<Seq<Seq<char>>>
    decreases pats,
{
    if pats.len() == 0 {
        Some(Seq::empty())
    } else {
        match (pats_idents(pats.drop_last()), pat_idents(pats.last())) {
            (Some(before), Some(last)) => Some(before + last),
            _ => None,
        }
    }
}

/// Adds the identifiers that `pat` binds to `idents`.
fn collect_idents_from_pat(pat: &Pat, idents: &mut Vec<String>) -> (done: Result<(), AnalyzeError>)
    ensures
        match done {
            Ok(_) => pat_idents(*pat) matches Some(found) && texts(final(idents)@) == texts(
                old(idents)@,
            ) + found,
            Err(error) => pat_idents(*pat) is None && error
                == AnalyzeError::UnsupportedPatternType,
        },
    decreases pat,
{
    match pat {
        Pat::Ident(name) => {
            idents.push(name.clone());
            assert(texts(idents@) =~= texts(old(idents)@) + seq![name@]);
            Ok(())
        },
        Pat::Tuple(elems) => collect_idents_from_pats(elems, idents),
        Pat::TupleStruct(elems) => collect_idents_from_pats(elems, idents),
        Pat::Struct(fields) => collect_idents_from_pats(fields, idents),
        Pat::Range => {
            assert(texts(idents@) =~= texts(old(idents)@) + Seq::<Seq<char>>::empty());
            Ok(())
        },
        Pat::Other => Err(AnalyzeError::UnsupportedPatternType),
    }
}

/// Adds the identifiers that the patterns bind to `idents`.
fn collect_idents_from_pats(pats: &Vec<Pat>, idents: &mut Vec<String>) -> (done: Result<
    (),
    AnalyzeError,
>)
    ensures
        match done {
            Ok(_) => pats_idents(pats@) matches Some(found) && texts(final(idents)@) == texts(
                old(idents)@,
            ) + found,
            Err(error) => pats_idents(pats@) is None && error
                == AnalyzeError::UnsupportedPatternType,
        },
    decreases pats,
{
    let mut i: usize = 0;
    while i < pats.len()
        invariant
            i <= pats.len(),
            pats_idents(pats@.take(i as int)) matches Some(found) && texts(idents@) == texts(
                old(idents)@,
            ) + found,
        decreases pats.len() - i,
    {
        let ghost before = idents@;
        proof {
            assert(pats@.take(i + 1).drop_last() =~= pats@.take(i as int));
        }
        match collect_idents_from_pat(&pats[i], idents) {
            Ok(_) => {
                proof {
                    let found = pats_idents(pats@.take(i as int))->0;
                    let more = pat_idents(pats@[i as int])->0;
                    assert(texts(idents@) =~= texts(old(idents)@) + (found + more));
                }
            },
            Err(error) => {
                proof {
                    lemma_pats_idents_none(pats@, i as int);
                }
                return Err(error);
            },
        }
        i = i + 1;
    }
    proof {
        assert(pats@.take(i as int) =~= pats@);
    }
    Ok(())
}

/// Where the identifiers of one pattern cannot be listed, those of the
/// sequence cannot either.
proof fn lemma_pats_idents_none(pats: Seq<Pat>, i: int)
    requires
        0 <= i < pats.len(),
        pat_idents(pats[i]) is None,
    ensures
        pats_idents(pats) is None,
    decreases pats.len(),
{
    if i < pats.len() - 1 {
        lemma_pats_idents_none(pats.drop_last(), i);
    }
}

/// Destructure a pattern and get the idents that will be bound.
pub fn get_idents_from_pat(pat: &Pat) -> (idents: Result<Vec<String>, AnalyzeError>)
    ensures
        match idents {
            Ok(names) => pat_idents(*pat) == Some(texts(names@)),
            Err(error) => pat_idents(*pat) is None && error
                == AnalyzeError::UnsupportedPatternType,
        },
{
    let mut idents: Vec<String> = Vec::new();
    match collect_idents_from_pat(pat, &mut idents) {
        Ok(_) => {
            proof {
                let found = pat_idents(*pat)->0;
                assert(texts(idents@) =~= found);
            }
            Ok(idents)
        },
        Err(error) => Err(error),
    }
}

/// Information regarding an action.
#[derive(Debug, PartialEq, Eq)]
pub struct Action<'a> {
    /// Name of the action
    pub handler_name: String,
    /// Inputs required by the action handler.
    pub inputs: Vec<&'a FnArg>,
}

/// Information regarding a state.
#[derive(Debug, PartialEq, Eq)]
pub struct State<'a> {
    /// Name of the state.
    pub handler_name: String,
    /// Optional superstate.
    pub superstate: Option<String>,
    /// Optional entry action.
    pub entry_action: Option<String>,
    /// Optional exit action.
    pub exit_action: Option<String>,
    /// Inputs required by the state handler.
    pub inputs: Vec<&'a FnArg>,
    /// Optional receiver input for the state handler (e.g. `&mut self`)
    pub object_input: Option<&'a FnArg>,
    /// Inputs provided by the state-local storage.
    pub state_inputs: Vec<&'a FnArg>,
    /// Inputs that are submitted to the state machine.
    pub external_inputs: Vec<&'a FnArg>,
}

/// Information regarding a superstate.
#[derive(Debug, PartialEq, Eq)]
pub struct Superstate<'a> {
    /// Name of the superstate.
    pub handler_name: String,
    /// Optional superstate.
    pub superstate: Option<String>,
    /// Optional entry action.
    pub entry_action: Option<String>,
    /// Optional exit action.
    pub exit_action: Option<String>,
    /// Inputs required by the superstate handler.
    pub inputs: Vec<&'a FnArg>,
    /// Optional receiver input for the state handler (e.g. `&mut self`)
    pub object_input: Option<&'a FnArg>,
    /// Inputs provided by the state-local storage.
    pub state_inputs: Vec<&'a FnArg>,
    /// Inputs that are submitted to the state machine.
    pub external_inputs: Vec<&'a FnArg>,
}

/// What the analysis of a handler finds, be it a state or a superstate.
struct Handler<'a> {
    handler_name: String,
    superstate: Option<String>,
    entry_action: Option<String>,
    exit_action: Option<String>,
    inputs: Vec<&'a FnArg>,
    object_input: Option<&'a FnArg>,
    state_inputs: Vec<&'a FnArg>,
    external_inputs: Vec<&'a FnArg>,
}

/// The text of a string, where there is one.
pub open spec fn option_text(name: Option<String>) -> Option<Seq<char>> {
    match name {
        Some(name) => Some(name@),
        None => None,
    }
}

/// The value that a reference refers to, where there is one.
pub open spec fn option_referent<T>(reference: Option<&T>) -> Option<T> {
    match reference {
        Some(reference) => Some(*reference),
        None => None,
    }
}

/// Whether the argument is one that the events of the machine supply: an
/// identifier that is one of `idents`.
pub open spec fn is_external_input(arg: FnArg, idents: Seq<Seq<char>>) -> bool {
    arg matches FnArg::Typed(typed) && typed.pat matches Pat::Ident(name) && idents.contains(name@)
}

/// Whether the argument is one that the state itself supplies: an
/// identifier that is none of `idents`.
pub open spec fn is_state_input(arg: FnArg, idents: Seq<Seq<char>>) -> bool {
    arg matches FnArg::Typed(typed) && typed.pat matches Pat::Ident(name) && !idents.contains(
        name@,
    )
}

/// The arguments that the events of the machine supply, in their order.
pub open spec fn external_inputs_of(args: Seq<FnArg>, idents: Seq<Seq<char>>) -> Seq<FnArg> {
    args.filter(|arg: FnArg| is_external_input(arg, idents))
}

/// The arguments that the state itself supplies, in their order.
pub open spec fn state_inputs_of(args: Seq<FnArg>, idents: Seq<Seq<char>>) -> Seq<FnArg> {
    args.filter(|arg: FnArg| is_state_input(arg, idents))
}

/// The last receiver among the arguments.
pub open spec fn last_receiver(args: Seq<FnArg>) -> Option<FnArg>
    decreases args.len(),
{
    if args.len() == 0 {
        None
    } else if args.last() is Receiver {
        Some(args.last())
    } else {
        last_receiver(args.drop_last())
    }
}

/// Why the argument cannot be that of a handler: it is neither the receiver
/// nor an identifier.
pub open spec fn pattern_error(arg: FnArg) -> Option<AnalyzeError> {
    match arg {
        FnArg::Receiver(_) => None,
        FnArg::Typed(typed) => match typed.pat {
            Pat::Ident(_) => None,
            Pat::Tuple(_) => Some(AnalyzeError::TuplePattern),
            Pat::TupleStruct(_) => Some(AnalyzeError::TupleStructPattern),
            Pat::Struct(_) => Some(AnalyzeError::StructPattern),
            _ => Some(AnalyzeError::UnsupportedPattern),
        },
    }
}

/// The error of the first element that has one.
pub open spec fn first_error<T>(
    elements: Seq<T>,
    error: spec_fn(T) -> Option<AnalyzeError>,
) -> Option<AnalyzeError>
    decreases elements.len(),
{
    if elements.len() == 0 {
        None
    } else {
        match first_error(elements.drop_last(), error) {
            Some(first) => Some(first),
            None => error(elements.last()),
        }
    }
}

/// The error of the first argument that has one.
pub open spec fn first_pattern_error(args: Seq<FnArg>) -> Option<AnalyzeError> {
    first_error(args, |arg: FnArg| pattern_error(arg))
}

/// The last string that the metas give to `key`, as in `key = "text"`.
pub open spec fn last_string_value(metas: Seq<Meta>, key: Seq<char>) -> Option<Seq<char>>
    decreases metas.len(),
{
    if metas.len() == 0 {
        None
    } else {
        match metas.last() {
            Meta::NameValue(pair) => if pair.path.is_ident_spec(key) && pair.lit is Str {
                Some(pair.lit->Str_0@)
            } else {
                last_string_value(metas.drop_last(), key)
            },
            _ => last_string_value(metas.drop_last(), key),
        }
    }
}

/// Whether the meta gives a value to `superstate`, `entry_action` or
/// `exit_action`.
pub open spec fn is_handler_setting(meta: Meta) -> bool {
    meta matches Meta::NameValue(pair) && (pair.path.is_ident_spec("superstate"@)
        || pair.path.is_ident_spec("entry_action"@) || pair.path.is_ident_spec("exit_action"@))
}

/// Whether each of the metas is a handler setting.
pub open spec fn all_handler_settings(metas: Seq<Meta>) -> bool {
    forall|i: int| 0 <= i < metas.len() ==> is_handler_setting(#[trigger] metas[i])
}

/// Why the method cannot be a handler marked by the attribute `attribute`:
/// the error of its first argument that has one, and where none has, an
/// unknown attribute where the attribute lists anything but handler settings.
pub open spec fn handler_error(method: ImplItemMethod, attribute: Seq<char>) -> Option<
    AnalyzeError,
> {
    match first_pattern_error(method.inputs@) {
        Some(error) => Some(error),
        None => if all_handler_settings(get_meta_spec(method.attrs@, attribute)) {
            None
        } else {
            Some(AnalyzeError::UnknownAttribute)
        },
    }
}

/// Whether the fields are what the analysis finds of `method` as a handler
/// marked by the attribute `attribute`, where `idents` are the identifiers
/// that the events of the machine supply.
pub open spec fn is_handler_of(
    handler_name: String,
    superstate: Option<String>,
    entry_action: Option<String>,
    exit_action: Option<String>,
    inputs: Vec<&FnArg>,
    object_input: Option<&FnArg>,
    state_inputs: Vec<&FnArg>,
    external_inputs: Vec<&FnArg>,
    method: ImplItemMethod,
    attribute: Seq<char>,
    idents: Seq<Seq<char>>,
) -> bool {
    let metas = get_meta_spec(method.attrs@, attribute);
    &&& handler_name@ == method.ident@
    &&& option_text(superstate) == last_string_value(metas, "superstate"@)
    &&& option_text(entry_action) == last_string_value(metas, "entry_action"@)
    &&& option_text(exit_action) == last_string_value(metas, "exit_action"@)
    &&& referents(inputs@) == method.inputs@
    &&& option_referent(object_input) == last_receiver(method.inputs@)
    &&& referents(state_inputs@) == state_inputs_of(method.inputs@, idents)
    &&& referents(external_inputs@) == external_inputs_of(method.inputs@, idents)
}

impl<'a> State<'a> {
    /// Whether this is what the analysis finds of `method` as a state.
    pub open spec fn is_state_of(&self, method: ImplItemMethod, idents: Seq<Seq<char>>) -> bool {
        is_handler_of(
            self.handler_name,
            self.superstate,
            self.entry_action,
            self.exit_action,
            self.inputs,
            self.object_input,
            self.state_inputs,
            self.external_inputs,
            method,
            "state"@,
            idents,
        )
    }
}

impl<'a> Superstate<'a> {
    /// Whether this is what the analysis finds of `method` as a superstate.
    pub open spec fn is_superstate_of(
        &self,
        method: ImplItemMethod,
        idents: Seq<Seq<char>>,
    ) -> bool {
        is_handler_of(
            self.handler_name,
            self.superstate,
            self.entry_action,
            self.exit_action,
            self.inputs,
            self.object_input,
            self.state_inputs,
            self.external_inputs,
            method,
            "superstate"@,
            idents,
        )
    }
}

impl<'a> Action<'a> {
    /// Whether this is what the analysis finds of `method` as an action.
    pub open spec fn is_action_of(&self, method: ImplItemMethod) -> bool {
        &&& self.handler_name@ == method.ident@
        &&& referents(self.inputs@) == method.inputs@
    }
}

/// Whether `name` is one of `idents`.
fn contains_ident(idents: &Vec<String>, name: &String) -> (found: bool)
    ensures
        found == texts(idents@).contains(name@),
{
    let mut i: usize = 0;
    while i < idents.len()
        invariant
            i <= idents.len(),
            forall|j: int| 0 <= j < i ==> texts(idents@)[j] != name@,
        decreases idents.len() - i,
    {
        if idents[i] == *name {
            assert(texts(idents@)[i as int] == name@);
            return true;
        }
        i = i + 1;
    }
    false
}

/// The arguments of a method, by reference.
fn inputs_of<'a>(method: &'a ImplItemMethod) -> (inputs: Vec<&'a FnArg>)
    ensures
        referents(inputs@) == method.inputs@,
{
    let mut inputs: Vec<&'a FnArg> = Vec::new();
    let mut i: usize = 0;
    while i < method.inputs.len()
        invariant
            i <= method.inputs.len(),
            referents(inputs@) == method.inputs@.take(i as int),
        decreases method.inputs.len() - i,
    {
        let ghost before = inputs@;
        inputs.push(&method.inputs[i]);
        assert(referents(inputs@) =~= referents(before).push(method.inputs@[i as int]));
        assert(referents(inputs@) =~= method.inputs@.take(i + 1));
        i = i + 1;
    }
    assert(method.inputs@.take(i as int) =~= method.inputs@);
    inputs
}

/// The string that a name-value pair gives, where its value is one.
fn string_value(lit: &Lit) -> (value: Option<String>)
    ensures
        match lit {
            Lit::Str(text) => option_text(value) == Some(text@),
            Lit::Other => value is None,
        },
{
    match lit {
        Lit::Str(text) => Some(text.clone()),
        Lit::Other => None,
    }
}

/// Analyses `method` as a handler marked by the attribute `attribute`.
#[verifier::loop_isolation(false)]
fn analyze_handler<'a>(
    method: &'a ImplItemMethod,
    input_idents: &Vec<String>,
    attribute: &str,
) -> (found: Result<Handler<'a>, AnalyzeError>)
    ensures
        match found {
            Ok(handler) => handler_error(*method, attribute@) is None && is_handler_of(
                handler.handler_name,
                handler.superstate,
                handler.entry_action,
                handler.exit_action,
                handler.inputs,
                handler.object_input,
                handler.state_inputs,
                handler.external_inputs,
                *method,
                attribute@,
                texts(input_idents@),
            ),
            Err(error) => handler_error(*method, attribute@) == Some(error),
        },
{
    let handler_name = method.ident.clone();
    let mut superstate: Option<String> = None;
    let mut entry_action: Option<String> = None;
    let mut exit_action: Option<String> = None;
    let inputs = inputs_of(method);
    let mut object_input: Option<&'a FnArg> = None;
    let mut state_inputs: Vec<&'a FnArg> = Vec::new();
    let mut external_inputs: Vec<&'a FnArg> = Vec::new();
    let ghost idents = texts(input_idents@);

    let mut i: usize = 0;
    while i < method.inputs.len()
        invariant
            i <= method.inputs.len(),
            idents == texts(input_idents@),
            first_pattern_error(method.inputs@.take(i as int)) is None,
            option_referent(object_input) == last_receiver(method.inputs@.take(i as int)),
            referents(state_inputs@) == state_inputs_of(method.inputs@.take(i as int), idents),
            referents(external_inputs@) == external_inputs_of(
                method.inputs@.take(i as int),
                idents,
            ),
        decreases method.inputs.len() - i,
    {
        let input = &method.inputs[i];
        let ghost state_before = state_inputs@;
        let ghost external_before = external_inputs@;
        proof {
            reveal(Seq::filter);
            assert(method.inputs@.take(i + 1).drop_last() =~= method.inputs@.take(i as int));
        }
        match input {
            FnArg::Receiver(_) => {
                object_input = Some(input);
            },
            FnArg::Typed(pat_type) => match &pat_type.pat {
                Pat::Ident(name) => {
                    if contains_ident(input_idents, name) {
                        external_inputs.push(input);
                        assert(referents(external_inputs@) =~= referents(external_before).push(
                            *input,
                        ));
                    } else {
                        state_inputs.push(input);
                        assert(referents(state_inputs@) =~= referents(state_before).push(*input));
                    }
                },
                Pat::Tuple(_) => {
                    proof {
                        lemma_first_pattern_error(method.inputs@, i as int);
                    }
                    return Err(AnalyzeError::TuplePattern);
                },
                Pat::TupleStruct(_) => {
                    proof {
                        lemma_first_pattern_error(method.inputs@, i as int);
                    }
                    return Err(AnalyzeError::TupleStructPattern);
                },
                Pat::Struct(_) => {
                    proof {
                        lemma_first_pattern_error(method.inputs@, i as int);
                    }
                    return Err(AnalyzeError::StructPattern);
                },
                _ => {
                    proof {
                        lemma_first_pattern_error(method.inputs@, i as int);
                    }
                    return Err(AnalyzeError::UnsupportedPattern);
                },
            },
        }
        i = i + 1;
    }
    proof {
        assert(method.inputs@.take(i as int) =~= method.inputs@);
    }

    let metas = get_meta(&method.attrs, attribute);
    let mut k: usize = 0;
    while k < metas.len()
        invariant
            k <= metas.len(),
            all_handler_settings(referents(metas@).take(k as int)),
            option_text(superstate) == last_string_value(
                referents(metas@).take(k as int),
                "superstate"@,
            ),
            option_text(entry_action) == last_string_value(
                referents(metas@).take(k as int),
                "entry_action"@,
            ),
            option_text(exit_action) == last_string_value(
                referents(metas@).take(k as int),
                "exit_action"@,
            ),
        decreases metas.len() - k,
    {
        let meta = metas[k];
        proof {
            assert(referents(metas@).take(k + 1).drop_last() =~= referents(metas@).take(k as int));
            assert(referents(metas@).take(k + 1).last() == *meta);
            lemma_names_differ();
        }
        match meta {
            Meta::NameValue(pair) => {
                if pair.path.is_ident("superstate") {
                    match string_value(&pair.lit) {
                        Some(value) => {
                            superstate = Some(value);
                        },
                        None => {},
                    }
                } else if pair.path.is_ident("entry_action") {
                    match string_value(&pair.lit) {
                        Some(value) => {
                            entry_action = Some(value);
                        },
                        None => {},
                    }
                } else if pair.path.is_ident("exit_action") {
                    match string_value(&pair.lit) {
                        Some(value) => {
                            exit_action = Some(value);
                        },
                        None => {},
                    }
                } else {
                    assert(!is_handler_setting(referents(metas@)[k as int]));
                    return Err(AnalyzeError::UnknownAttribute);
                }
            },
            _ => {
                assert(!is_handler_setting(referents(metas@)[k as int]));
                return Err(AnalyzeError::UnknownAttribute);
            },
        }
        k = k + 1;
    }
    proof {
        assert(referents(metas@).take(k as int) =~= referents(metas@));
    }
    Ok(
        Handler {
            handler_name,
            superstate,
            entry_action,
            exit_action,
            inputs,
            object_input,
            state_inputs,
            external_inputs,
        },
    )
}

/// The three names that a handler setting can have are three different
/// names.
proof fn lemma_names_differ()
    ensures
        "superstate"@ != "entry_action"@,
        "superstate"@ != "exit_action"@,
        "entry_action"@ != "exit_action"@,
{
    reveal_strlit("superstate");
    reveal_strlit("entry_action");
    reveal_strlit("exit_action");
    assert("superstate"@.len() != "entry_action"@.len());
    assert("superstate"@[0] != "exit_action"@[0]);
    assert("entry_action"@.len() != "exit_action"@.len());
}

/// Where no element before the one at `i` has an error and that one has,
/// its error is the first.
proof fn lemma_first_error<T>(
    elements: Seq<T>,
    error: spec_fn(T) -> Option<AnalyzeError>,
    i: int,
)
    requires
        0 <= i < elements.len(),
        first_error(elements.take(i), error) is None,
        error(elements[i]) is Some,
    ensures
        first_error(elements, error) == error(elements[i]),
    decreases elements.len(),
{
    if i == elements.len() - 1 {
        assert(elements.drop_last() =~= elements.take(i));
    } else {
        assert(elements.drop_last().take(i) =~= elements.take(i));
        lemma_first_error(elements.drop_last(), error, i);
    }
}

/// Where no argument before the one at `i` has an error and that one has,
/// its error is the first.
proof fn lemma_first_pattern_error(args: Seq<FnArg>, i: int)
    requires
        0 <= i < args.len(),
        first_pattern_error(args.take(i)) is None,
        pattern_error(args[i]) is Some,
    ensures
        first_pattern_error(args) == pattern_error(args[i]),
{
    lemma_first_error(args, |arg: FnArg| pattern_error(arg), i);
}

/// Analyses a method that is marked as a state.
pub fn analyze_state<'a>(method: &'a ImplItemMethod, state_machine: &StateMachine) -> (state:
    Result<State<'a>, AnalyzeError>)
    ensures
        match state {
            Ok(state) => handler_error(*method, "state"@) is None && state.is_state_of(
                *method,
                texts(state_machine.input_idents@),
            ),
            Err(error) => handler_error(*method, "state"@) == Some(error),
        },
{
    match analyze_handler(method, &state_machine.input_idents, "state") {
        Ok(handler) => Ok(
            State {
                handler_name: handler.handler_name,
                superstate: handler.superstate,
                entry_action: handler.entry_action,
                exit_action: handler.exit_action,
                inputs: handler.inputs,
                object_input: handler.object_input,
                state_inputs: handler.state_inputs,
                external_inputs: handler.external_inputs,
            },
        ),
        Err(error) => Err(error),
    }
}

/// Analyses a method that is marked as a superstate.
pub fn analyze_superstate<'a>(
    method: &'a ImplItemMethod,
    state_machine: &StateMachine,
) -> (superstate: Result<Superstate<'a>, AnalyzeError>)
    ensures
        match superstate {
            Ok(superstate) => handler_error(*method, "superstate"@) is None
                && superstate.is_superstate_of(*method, texts(state_machine.input_idents@)),
            Err(error) => handler_error(*method, "superstate"@) == Some(error),
        },
{
    match analyze_handler(method, &state_machine.input_idents, "superstate") {
        Ok(handler) => Ok(
            Superstate {
                handler_name: handler.handler_name,
                superstate: handler.superstate,
                entry_action: handler.entry_action,
                exit_action: handler.exit_action,
                inputs: handler.inputs,
                object_input: handler.object_input,
                state_inputs: handler.state_inputs,
                external_inputs: handler.external_inputs,
            },
        ),
        Err(error) => Err(error),
    }
}

/// Analyses a method that is marked as an action.
pub fn analyze_action<'a>(method: &'a ImplItemMethod) -> (action: Action<'a>)
    ensures
        action.is_action_of(*method),
{
    let handler_name = method.ident.clone();
    let inputs = inputs_of(method);
    Action { handler_name, inputs }
}

/// General information regarding the state machine
#[derive(Debug, PartialEq, Eq)]
pub struct StateMachine<'a> {
    /// The type on which the state machine is implemented.
    pub object_ty: String,
    /// The name for the state type.
    pub state_name: String,
    /// Derives that will be applied on the state type.
    pub state_derives: Vec<&'a Path>,
    /// The name of the superstate type.
    pub superstate_name: String,
    /// Derives that will be applied to the superstate type.
    pub superstate_derives: Vec<&'a Path>,
    /// The input that will be handled by the state machine.
    pub input: Pat,
    /// The idents that will be bound by destructuring the input pattern.
    pub input_idents: Vec<String>,
}

/// Model of the state machine.
pub struct Model<'a> {
    /// The item impl that was analysed.
    pub item_impl: &'a ItemImpl,
    /// General information regarding the state machine.
    pub state_machine: StateMachine<'a>,
    /// The states of the state machine.
    pub states: StringHashMap<State<'a>>,
    /// The superstates of the state machine.
    pub superstates: StringHashMap<Superstate<'a>>,
    /// The actions of the state machine.
    pub actions: StringHashMap<Action<'a>>,
}

/// Whether each element of the list is a meta.
pub open spec fn all_nested_metas(nested: Seq<NestedMeta>) -> bool {
    forall|i: int| 0 <= i < nested.len() ==> (#[trigger] nested[i]) is Meta
}

/// The paths of the metas among the elements of a list, in their order.
pub open spec fn listed_paths(nested: Seq<NestedMeta>) -> Seq<Path> {
    nested_metas(nested).map_values(|meta: Meta| meta.path_spec())
}

/// Why the meta cannot be a setting of the state type or the superstate
/// type. A setting is `name` with a string, or `derive` with a list of
/// metas.
pub open spec fn type_setting_error(meta: Meta) -> Option<AnalyzeError> {
    match meta {
        Meta::NameValue(pair) => if !pair.path.is_ident_spec("name"@) {
            Some(AnalyzeError::UnknownAttribute)
        } else if pair.lit is Str {
            None
        } else {
            Some(AnalyzeError::ExpectedStringLiteral)
        },
        Meta::List(list) => if !list.path.is_ident_spec("derive"@) {
            Some(AnalyzeError::UnknownAttribute)
        } else if all_nested_metas(list.nested@) {
            None
        } else {
            Some(AnalyzeError::ExpectedListOfTraits)
        },
        Meta::Path(_) => Some(AnalyzeError::UnknownAttribute),
    }
}

/// The error of the first meta that is no setting of a type.
pub open spec fn first_type_setting_error(metas: Seq<Meta>) -> Option<AnalyzeError> {
    first_error(metas, |meta: Meta| type_setting_error(meta))
}

/// The paths that the `derive` lists among the metas hold, in their order.
pub open spec fn derived_paths(metas: Seq<Meta>) -> Seq<Path>
    decreases metas.len(),
{
    if metas.len() == 0 {
        Seq::empty()
    } else {
        derived_paths(metas.drop_last()) + match metas.last() {
            Meta::List(list) => if list.path.is_ident_spec("derive"@) {
                listed_paths(list.nested@)
            } else {
                Seq::empty()
            },
            _ => Seq::empty(),
        }
    }
}

/// The name that the metas give to a type: the last string given to `name`,
/// and `default` where there is none.
pub open spec fn given_name(metas: Seq<Meta>, default: Seq<char>) -> Seq<char> {
    match last_string_value(metas, "name"@) {
        Some(name) => name,
        None => default,
    }
}

/// Why no state machine can be made of the `impl` block: the first error
/// among the settings of the state type, and where there is none, the first
/// among those of the superstate type.
pub open spec fn state_machine_error(item_impl: ItemImpl) -> Option<AnalyzeError> {
    match first_type_setting_error(get_meta_spec(item_impl.attrs@, "state"@)) {
        Some(error) => Some(error),
        None => first_type_setting_error(get_meta_spec(item_impl.attrs@, "superstate"@)),
    }
}

impl<'a> StateMachine<'a> {
    /// Whether this is what the analysis finds of the `impl` block itself.
    pub open spec fn is_state_machine_of(&self, item_impl: ItemImpl) -> bool {
        let state_metas = get_meta_spec(item_impl.attrs@, "state"@);
        let superstate_metas = get_meta_spec(item_impl.attrs@, "superstate"@);
        &&& self.object_ty@ == item_impl.self_ty@
        &&& self.state_name@ == given_name(state_metas, "State"@)
        &&& referents(self.state_derives@) == derived_paths(state_metas)
        &&& self.superstate_name@ == given_name(superstate_metas, "Superstate"@)
        &&& referents(self.superstate_derives@) == derived_paths(superstate_metas)
        &&& self.input matches Pat::Ident(name) && name@ == "input"@
        &&& texts(self.input_idents@) == seq!["input"@]
    }
}

/// The name and the derives that the metas give to a type.
fn analyze_type_settings<'a>(metas: &Vec<&'a Meta>, default_name: &str) -> (settings: Result<
    (String, Vec<&'a Path>),
    AnalyzeError,
>)
    ensures
        match settings {
            Ok((name, derives)) => {
                &&& first_type_setting_error(referents(metas@)) is None
                &&& name@ == given_name(referents(metas@), default_name@)
                &&& referents(derives@) == derived_paths(referents(metas@))
            },
            Err(error) => first_type_setting_error(referents(metas@)) == Some(error),
        },
{
    let mut name: String = default_name.to_owned();
    let mut derives: Vec<&'a Path> = Vec::new();
    let ghost given = referents(metas@);
    let mut i: usize = 0;
    while i < metas.len()
        invariant
            i <= metas.len(),
            given == referents(metas@),
            first_type_setting_error(given.take(i as int)) is None,
            name@ == given_name(given.take(i as int), default_name@),
            referents(derives@) == derived_paths(given.take(i as int)),
        decreases metas.len() - i,
    {
        let meta = metas[i];
        let ghost before = derives@;
        proof {
            assert(given.take(i + 1).drop_last() =~= given.take(i as int));
            assert(given.take(i + 1).last() == *meta);
        }
        match meta {
            Meta::NameValue(pair) => {
                if !pair.path.is_ident("name") {
                    proof {
                        lemma_first_error(given, |meta: Meta| type_setting_error(meta), i as int);
                    }
                    return Err(AnalyzeError::UnknownAttribute);
                }
                match string_value(&pair.lit) {
                    Some(value) => {
                        name = value;
                    },
                    None => {
                        proof {
                            lemma_first_error(
                                given,
                                |meta: Meta| type_setting_error(meta),
                                i as int,
                            );
                        }
                        return Err(AnalyzeError::ExpectedStringLiteral);
                    },
                }
                assert(referents(derives@) =~= referents(before) + Seq::<Path>::empty());
            },
            Meta::List(list) => {
                if !list.path.is_ident("derive") {
                    proof {
                        lemma_first_error(given, |meta: Meta| type_setting_error(meta), i as int);
                    }
                    return Err(AnalyzeError::UnknownAttribute);
                }
                let mut j: usize = 0;
                while j < list.nested.len()
                    invariant
                        j <= list.nested.len(),
                        0 <= i < given.len(),
                        given == referents(metas@),
                        given[i as int] == *meta,
                        *meta == Meta::List(*list),
                        list.path.is_ident_spec("derive"@),
                        first_type_setting_error(given.take(i as int)) is None,
                        all_nested_metas(list.nested@.take(j as int)),
                        referents(derives@) == referents(before) + listed_paths(
                            list.nested@.take(j as int),
                        ),
                    decreases list.nested.len() - j,
                {
                    let ghost listed = derives@;
                    proof {
                        assert(list.nested@.take(j + 1).drop_last() =~= list.nested@.take(
                            j as int,
                        ));
                    }
                    match &list.nested[j] {
                        NestedMeta::Meta(trait_meta) => {
                            derives.push(trait_meta.path());
                            assert(referents(derives@) =~= referents(listed).push(
                                trait_meta.path_spec(),
                            ));
                            assert(referents(derives@) =~= referents(before) + listed_paths(
                                list.nested@.take(j + 1),
                            ));
                        },
                        NestedMeta::Lit(_) => {
                            proof {
                                assert(!(list.nested@[j as int] is Meta));
                                lemma_first_error(
                                    given,
                                    |meta: Meta| type_setting_error(meta),
                                    i as int,
                                );
                            }
                            return Err(AnalyzeError::ExpectedListOfTraits);
                        },
                    }
                    j = j + 1;
                }
                proof {
                    assert(list.nested@.take(j as int) =~= list.nested@);
                }
            },
            Meta::Path(_) => {
                proof {
                    lemma_first_error(given, |meta: Meta| type_setting_error(meta), i as int);
                }
                return Err(AnalyzeError::UnknownAttribute);
            },
        }
        i = i + 1;
    }
    proof {
        assert(given.take(i as int) =~= given);
    }
    Ok((name, derives))
}

/// Analyses the attributes of the `impl` block itself.
pub fn analyze_state_machine<'a>(item_impl: &'a ItemImpl) -> (state_machine: Result<
    StateMachine<'a>,
    AnalyzeError,
>)
    ensures
        match state_machine {
            Ok(state_machine) => state_machine_error(*item_impl) is None
                && state_machine.is_state_machine_of(*item_impl),
            Err(error) => state_machine_error(*item_impl) == Some(error),
        },
{
    let object_ty = item_impl.self_ty.clone();
    let input = Pat::Ident("input".to_owned());
    let input_idents = match get_idents_from_pat(&input) {
        Ok(idents) => idents,
        Err(error) => {
            return Err(error);
        },
    };
    let state_metas = get_meta(&item_impl.attrs, "state");
    let (state_name, state_derives) = match analyze_type_settings(&state_metas, "State") {
        Ok(settings) => settings,
        Err(error) => {
            return Err(error);
        },
    };
    let superstate_metas = get_meta(&item_impl.attrs, "superstate");
    let (superstate_name, superstate_derives) = match analyze_type_settings(
        &superstate_metas,
        "Superstate",
    ) {
        Ok(settings) => settings,
        Err(error) => {
            return Err(error);
        },
    };
    Ok(
        StateMachine {
            object_ty,
            state_name,
            state_derives,
            superstate_name,
            superstate_derives,
            input,
            input_idents,
        },
    )
}

/// Whether one of the attributes is named `name`.
pub open spec fn has_attribute(attrs: Seq<Attribute>, name: Seq<char>) -> bool {
    exists|i: int| 0 <= i < attrs.len() && (#[trigger] attrs[i]).path.is_ident_spec(name)
}

/// The last method among the items that is called `name` and has an
/// attribute named `attribute`.
pub open spec fn marked_method(
    items: Seq<ImplItem>,
    attribute: Seq<char>,
    name: Seq<char>,
) -> Option<ImplItemMethod>
    decreases items.len(),
{
    if items.len() == 0 {
        None
    } else {
        match items.last() {
            ImplItem::Method(method) => if method.ident@ == name && has_attribute(
                method.attrs@,
                attribute,
            ) {
                Some(method)
            } else {
                marked_method(items.drop_last(), attribute, name)
            },
            ImplItem::Other => marked_method(items.drop_last(), attribute, name),
        }
    }
}

/// Why `method` cannot be what the attribute marks it as.
pub open spec fn attribute_error(method: ImplItemMethod, attr: Attribute) -> Option<AnalyzeError> {
    if attr.path.is_ident_spec("state"@) {
        handler_error(method, "state"@)
    } else if attr.path.is_ident_spec("superstate"@) {
        handler_error(method, "superstate"@)
    } else {
        None
    }
}

/// Why `method` cannot be what the first of the attributes that fails
/// marks it as.
pub open spec fn first_attribute_error(method: ImplItemMethod, attrs: Seq<Attribute>) -> Option<
    AnalyzeError,
> {
    first_error(attrs, |attr: Attribute| attribute_error(method, attr))
}

/// Why the item cannot be what its attributes mark it as.
pub open spec fn item_error(item: ImplItem) -> Option<AnalyzeError> {
    match item {
        ImplItem::Method(method) => first_attribute_error(method, method.attrs@),
        ImplItem::Other => None,
    }
}

/// Why the `impl` block cannot be analysed: what is wrong with its own
/// attributes, and where nothing is, what is wrong with the first of its
/// items that fails.
pub open spec fn analyze_error(item_impl: ItemImpl) -> Option<AnalyzeError> {
    match state_machine_error(item_impl) {
        Some(error) => Some(error),
        None => first_error(item_impl.items@, |item: ImplItem| item_error(item)),
    }
}

impl<'a> Model<'a> {
    /// Whether the states are those of the methods among `items` that are
    /// marked as states, each under the name of its method and made of the
    /// last method of that name. `idents` are the identifiers that the events
    /// of the machine supply.
    pub open spec fn holds_states_of(&self, items: Seq<ImplItem>, idents: Seq<Seq<char>>) -> bool {
        &&& forall|name: Seq<char>| #[trigger]
            self.states@.contains_key(name) <==> marked_method(items, "state"@, name) is Some
        &&& forall|name: Seq<char>| #[trigger]
            self.states@.contains_key(name) ==> self.states@[name].is_state_of(
                marked_method(items, "state"@, name)->0,
                idents,
            )
    }

    /// Whether the superstates are those of the methods among `items` that
    /// are marked as superstates, each under the name of its method and made
    /// of the last method of that name.
    pub open spec fn holds_superstates_of(
        &self,
        items: Seq<ImplItem>,
        idents: Seq<Seq<char>>,
    ) -> bool {
        &&& forall|name: Seq<char>| #[trigger]
            self.superstates@.contains_key(name) <==> marked_method(items, "superstate"@, name)
                is Some
        &&& forall|name: Seq<char>| #[trigger]
            self.superstates@.contains_key(name) ==> self.superstates@[name].is_superstate_of(
                marked_method(items, "superstate"@, name)->0,
                idents,
            )
    }

    /// Whether the actions are those of the methods among `items` that are
    /// marked as actions, each under the name of its method and made of the
    /// last method of that name.
    pub open spec fn holds_actions_of(&self, items: Seq<ImplItem>) -> bool {
        &&& forall|name: Seq<char>| #[trigger]
            self.actions@.contains_key(name) <==> marked_method(items, "action"@, name) is Some
        &&& forall|name: Seq<char>| #[trigger]
            self.actions@.contains_key(name) ==> self.actions@[name].is_action_of(
                marked_method(items, "action"@, name)->0,
            )
    }

    /// Whether this is what the analysis finds of the `impl` block.
    pub open spec fn is_model_of(&self, item_impl: ItemImpl) -> bool {
        let idents = texts(self.state_machine.input_idents@);
        &&& *self.item_impl == item_impl
        &&& self.state_machine.is_state_machine_of(item_impl)
        &&& self.holds_states_of(item_impl.items@, idents)
        &&& self.holds_superstates_of(item_impl.items@, idents)
        &&& self.holds_actions_of(item_impl.items@)
    }
}

/// Among the items before `method` and the first attributes of `method`,
/// the last method that is called `name` and has an attribute named
/// `attribute`.
spec fn marked_so_far(
    items: Seq<ImplItem>,
    method: ImplItemMethod,
    attrs: Seq<Attribute>,
    attribute: Seq<char>,
    name: Seq<char>,
) -> Option<ImplItemMethod> {
    if method.ident@ == name && has_attribute(attrs, attribute) {
        Some(method)
    } else {
        marked_method(items, attribute, name)
    }
}

/// One more attribute is named `name` where it is, or one before it was.
proof fn lemma_has_attribute_step(attrs: Seq<Attribute>, j: int, name: Seq<char>)
    requires
        0 <= j < attrs.len(),
    ensures
        has_attribute(attrs.take(j + 1), name) == (has_attribute(attrs.take(j), name)
            || attrs[j].path.is_ident_spec(name)),
{
    let shorter = attrs.take(j);
    let longer = attrs.take(j + 1);
    if has_attribute(shorter, name) {
        let i = choose|i: int| 0 <= i < shorter.len() && (#[trigger] shorter[i]).path.is_ident_spec(
            name,
        );
        assert(longer[i].path.is_ident_spec(name));
    }
    if attrs[j].path.is_ident_spec(name) {
        assert(longer[j].path.is_ident_spec(name));
    }
    if has_attribute(longer, name) {
        let i = choose|i: int| 0 <= i < longer.len() && (#[trigger] longer[i]).path.is_ident_spec(
            name,
        );
        if i < j {
            assert(shorter[i].path.is_ident_spec(name));
        }
    }
}

/// The names of the three marks are three different names.
proof fn lemma_marks_differ()
    ensures
        "state"@ != "superstate"@,
        "state"@ != "action"@,
        "superstate"@ != "action"@,
{
    reveal_strlit("state");
    reveal_strlit("superstate");
    reveal_strlit("action");
    assert("state"@.len() != "superstate"@.len());
    assert("state"@.len() != "action"@.len());
    assert("superstate"@.len() != "action"@.len());
}

/// Analyses an annotated `impl` block.
pub fn analyze<'a>(item_impl: &'a ItemImpl) -> (model: Result<Model<'a>, AnalyzeError>)
    ensures
        match model {
            Ok(model) => analyze_error(*item_impl) is None && model.is_model_of(*item_impl),
            Err(error) => analyze_error(*item_impl) == Some(error),
        },
{
    let state_machine = match analyze_state_machine(item_impl) {
        Ok(state_machine) => state_machine,
        Err(error) => {
            return Err(error);
        },
    };
    let mut model = Model {
        item_impl,
        state_machine,
        states: StringHashMap::new(),
        superstates: StringHashMap::new(),
        actions: StringHashMap::new(),
    };
    let ghost items = item_impl.items@;
    let ghost idents = texts(model.state_machine.input_idents@);
    let ghost failing = |item: ImplItem| item_error(item);
    let mut i: usize = 0;
    while i < item_impl.items.len()
        invariant
            i <= item_impl.items.len(),
            items == item_impl.items@,
            idents == texts(model.state_machine.input_idents@),
            failing == |item: ImplItem| item_error(item),
            *model.item_impl == *item_impl,
            state_machine_error(*item_impl) is None,
            model.state_machine.is_state_machine_of(*item_impl),
            first_error(items.take(i as int), failing) is None,
            model.holds_states_of(items.take(i as int), idents),
            model.holds_superstates_of(items.take(i as int), idents),
            model.holds_actions_of(items.take(i as int)),
        decreases item_impl.items.len() - i,
    {
        let ghost before = items.take(i as int);
        proof {
            assert(items.take(i + 1).drop_last() =~= before);
        }
        match &item_impl.items[i] {
            ImplItem::Method(method) => {
                let ghost marking = |attr: Attribute| attribute_error(*method, attr);
                let mut j: usize = 0;
                proof {
                    assert(method.attrs@.take(0).len() == 0);
                }
                while j < method.attrs.len()
                    invariant
                        j <= method.attrs.len(),
                        i < item_impl.items.len(),
                        items == item_impl.items@,
                        before == items.take(i as int),
                        items[i as int] == ImplItem::Method(*method),
                        idents == texts(model.state_machine.input_idents@),
                        failing == |item: ImplItem| item_error(item),
                        marking == |attr: Attribute| attribute_error(*method, attr),
                        *model.item_impl == *item_impl,
                        state_machine_error(*item_impl) is None,
                        model.state_machine.is_state_machine_of(*item_impl),
                        first_error(before, failing) is None,
                        first_error(method.attrs@.take(j as int), marking) is None,
                        forall|name: Seq<char>| #[trigger]
                            model.states@.contains_key(name) <==> marked_so_far(
                                before,
                                *method,
                                method.attrs@.take(j as int),
                                "state"@,
                                name,
                            ) is Some,
                        forall|name: Seq<char>| #[trigger]
                            model.states@.contains_key(name) ==> model.states@[name].is_state_of(
                                marked_so_far(
                                    before,
                                    *method,
                                    method.attrs@.take(j as int),
                                    "state"@,
                                    name,
                                )->0,
                                idents,
                            ),
                        forall|name: Seq<char>| #[trigger]
                            model.superstates@.contains_key(name) <==> marked_so_far(
                                before,
                                *method,
                                method.attrs@.take(j as int),
                                "superstate"@,
                                name,
                            ) is Some,
                        forall|name: Seq<char>| #[trigger]
                            model.superstates@.contains_key(name)
                                ==> model.superstates@[name].is_superstate_of(
                                marked_so_far(
                                    before,
                                    *method,
                                    method.attrs@.take(j as int),
                                    "superstate"@,
                                    name,
                                )->0,
                                idents,
                            ),
                        forall|name: Seq<char>| #[trigger]
                            model.actions@.contains_key(name) <==> marked_so_far(
                                before,
                                *method,
                                method.attrs@.take(j as int),
                                "action"@,
                                name,
                            ) is Some,
                        forall|name: Seq<char>| #[trigger]
                            model.actions@.contains_key(name) ==> model.actions@[name].is_action_of(
                                marked_so_far(
                                    before,
                                    *method,
                                    method.attrs@.take(j as int),
                                    "action"@,
                                    name,
                                )->0,
                            ),
                    decreases method.attrs.len() - j,
                {
                    let attr = &method.attrs[j];
                    proof {
                        lemma_marks_differ();
                        lemma_has_attribute_step(method.attrs@, j as int, "state"@);
                        lemma_has_attribute_step(method.attrs@, j as int, "superstate"@);
                        lemma_has_attribute_step(method.attrs@, j as int, "action"@);
                        assert(method.attrs@.take(j + 1).drop_last() =~= method.attrs@.take(
                            j as int,
                        ));
                    }
                    if attr.path.is_ident("state") {
                        match analyze_state(method, &model.state_machine) {
                            Ok(state) => {
                                model.states.insert(state.handler_name.clone(), state);
                            },
                            Err(error) => {
                                proof {
                                    lemma_first_error(method.attrs@, marking, j as int);
                                    lemma_first_error(items, failing, i as int);
                                }
                                return Err(error);
                            },
                        }
                    } else if attr.path.is_ident("superstate") {
                        match analyze_superstate(method, &model.state_machine) {
                            Ok(superstate) => {
                                model.superstates.insert(
                                    superstate.handler_name.clone(),
                                    superstate,
                                );
                            },
                            Err(error) => {
                                proof {
                                    lemma_first_error(method.attrs@, marking, j as int);
                                    lemma_first_error(items, failing, i as int);
                                }
                                return Err(error);
                            },
                        }
                    } else if attr.path.is_ident("action") {
                        let action = analyze_action(method);
                        model.actions.insert(action.handler_name.clone(), action);
                    }
                    j = j + 1;
                }
                proof {
                    assert(method.attrs@.take(j as int) =~= method.attrs@);
                }
            },
            ImplItem::Other => {},
        }
        i = i + 1;
    }
    proof {
        assert(items.take(i as int) =~= items);
    }
    Ok(model)
}

} // verus!
