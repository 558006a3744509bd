use statig::analyze::{
    analyze, analyze_action, analyze_state, analyze_state_machine, analyze_superstate, get_idents_from_pat,
    get_meta, Action, AnalyzeError, State, StateMachine, Superstate,
};
use statig::syntax::{
    Attribute, FnArg, ImplItem, ImplItemMethod, ItemImpl, Lit, Meta, MetaList, MetaNameValue,
    NestedMeta, Pat, PatType, Path,
};

fn path(text: &str) -> Path {
    Path { segments: text.split("::").map(|segment| segment.to_string()).collect() }
}

fn word(name: &str) -> Meta {
    Meta::Path(path(name))
}

fn list(name: &str, nested: Vec<NestedMeta>) -> Meta {
    Meta::List(MetaList { path: path(name), nested })
}

fn pair(name: &str, value: &str) -> Meta {
    Meta::NameValue(MetaNameValue { path: path(name), lit: Lit::Str(value.to_string()) })
}

fn pair_of_other(name: &str) -> Meta {
    Meta::NameValue(MetaNameValue { path: path(name), lit: Lit::Other })
}

fn metas(metas: Vec<Meta>) -> Vec<NestedMeta> {
    metas.into_iter().map(NestedMeta::Meta).collect()
}

fn attribute(meta: Meta) -> Attribute {
    let path = match &meta {
        Meta::Path(path) => path,
        Meta::List(list) => &list.path,
        Meta::NameValue(pair) => &pair.path,
    };
    Attribute { path: Path { segments: path.segments.clone() }, meta: Some(meta) }
}

fn receiver() -> FnArg {
    FnArg::Receiver("&mut self".to_string())
}

fn typed(pat: Pat, ty: &str) -> FnArg {
    FnArg::Typed(PatType { pat, ty: ty.to_string() })
}

fn named(name: &str, ty: &str) -> FnArg {
    typed(Pat::Ident(name.to_string()), ty)
}

fn method(attrs: Vec<Attribute>, ident: &str, inputs: Vec<FnArg>) -> ImplItemMethod {
    ImplItemMethod { attrs, ident: ident.to_string(), inputs }
}

fn impl_block(attrs: Vec<Attribute>, methods: Vec<ImplItemMethod>) -> ItemImpl {
    ItemImpl {
        attrs,
        self_ty: "Blinky".to_string(),
        items: methods.into_iter().map(ImplItem::Method).collect(),
    }
}

fn plain_machine<'a>() -> StateMachine<'a> {
    StateMachine {
        object_ty: "Blinky".to_string(),
        state_name: "State".to_string(),
        state_derives: vec![],
        superstate_name: "Superstate".to_string(),
        superstate_derives: vec![],
        input: Pat::Ident("input".to_string()),
        input_idents: vec!["input".to_string()],
    }
}

fn blinky() -> ItemImpl {
    impl_block(
        vec![
            attribute(word("state_machine")),
            attribute(list("state", metas(vec![list("derive", metas(vec![word("Copy"), word("Clone")]))]))),
            attribute(list(
                "superstate",
                metas(vec![list("derive", metas(vec![word("Copy"), word("Clone")]))]),
            )),
        ],
        vec![
            method(
                vec![attribute(list(
                    "state",
                    metas(vec![
                        pair("superstate", "playing"),
                        pair("entry_action", "enter_on"),
                        pair("exit_action", "enter_off"),
                    ]),
                ))],
                "on",
                vec![receiver(), named("input", "&Event")],
            ),
            method(
                vec![attribute(word("superstate"))],
                "playing",
                vec![receiver(), named("input", "&Event")],
            ),
            method(vec![attribute(word("action"))], "enter_on", vec![receiver()]),
        ],
    )
}

#[test]
fn valid_state_analyze() {
    let item_impl = blinky();

    let actual = analyze(&item_impl).unwrap();

    let copy = path("Copy");
    let clone = path("Clone");
    let state_machine = StateMachine {
        object_ty: "Blinky".to_string(),
        state_name: "State".to_string(),
        state_derives: vec![&copy, &clone],
        superstate_name: "Superstate".to_string(),
        superstate_derives: vec![&copy, &clone],
        input: Pat::Ident("input".to_string()),
        input_idents: vec!["input".to_string()],
    };

    let this = receiver();
    let input = named("input", "&Event");

    let state = State {
        handler_name: "on".to_string(),
        superstate: Some("playing".to_string()),
        entry_action: Some("enter_on".to_string()),
        exit_action: Some("enter_off".to_string()),
        inputs: vec![&this, &input],
        object_input: Some(&this),
        state_inputs: vec![],
        external_inputs: vec![&input],
    };

    let superstate = Superstate {
        handler_name: "playing".to_string(),
        superstate: None,
        entry_action: None,
        exit_action: None,
        inputs: vec![&this, &input],
        object_input: Some(&this),
        state_inputs: vec![],
        external_inputs: vec![&input],
    };

    let action = Action { handler_name: "enter_on".to_string(), inputs: vec![&this] };

    assert_eq!(*actual.item_impl, item_impl);
    assert_eq!(actual.state_machine, state_machine);
    assert_eq!(actual.states.len(), 1);
    assert_eq!(actual.states.get("on"), Some(&state));
    assert_eq!(actual.superstates.len(), 1);
    assert_eq!(actual.superstates.get("playing"), Some(&superstate));
    assert_eq!(actual.actions.len(), 1);
    assert_eq!(actual.actions.get("enter_on"), Some(&action));
}

#[test]
fn get_meta_lists_metas_of_named_list_attributes() {
    let attrs = vec![
        attribute(list("state", vec![NestedMeta::Meta(word("a")), NestedMeta::Lit(Lit::Other)])),
        attribute(list("superstate", metas(vec![word("b")]))),
        attribute(word("state")),
        attribute(pair("state", "c")),
        Attribute { path: path("state"), meta: None },
        attribute(list("state", metas(vec![pair("d", "e"), list("f", vec![])]))),
        attribute(list("other::state", metas(vec![word("g")]))),
    ];
    let a = word("a");
    let d = pair("d", "e");
    let f = list("f", vec![]);
    assert_eq!(get_meta(&attrs, "state"), vec![&a, &d, &f]);
    let b = word("b");
    assert_eq!(get_meta(&attrs, "superstate"), vec![&b]);
    assert_eq!(get_meta(&attrs, "action"), Vec::<&Meta>::new());
    assert_eq!(get_meta(&vec![], "state"), Vec::<&Meta>::new());
}

#[test]
fn idents_of_patterns() {
    assert_eq!(get_idents_from_pat(&Pat::Ident("input".to_string())), Ok(vec!["input".to_string()]));
    assert_eq!(get_idents_from_pat(&Pat::Range), Ok(vec![]));
    let nested = Pat::Tuple(vec![
        Pat::Ident("a".to_string()),
        Pat::TupleStruct(vec![Pat::Ident("b".to_string()), Pat::Range]),
        Pat::Struct(vec![Pat::Ident("c".to_string()), Pat::Tuple(vec![])]),
        Pat::Ident("d".to_string()),
    ]);
    assert_eq!(
        get_idents_from_pat(&nested),
        Ok(vec!["a".to_string(), "b".to_string(), "c".to_string(), "d".to_string()])
    );
}

#[test]
fn idents_of_unsupported_pattern() {
    assert_eq!(get_idents_from_pat(&Pat::Other), Err(AnalyzeError::UnsupportedPatternType));
    let nested = Pat::Tuple(vec![
        Pat::Ident("a".to_string()),
        Pat::Struct(vec![Pat::Other]),
        Pat::Ident("b".to_string()),
    ]);
    assert_eq!(get_idents_from_pat(&nested), Err(AnalyzeError::UnsupportedPatternType));
}

#[test]
fn state_inputs_are_split_by_where_they_come_from() {
    let handler = method(
        vec![attribute(list("state", vec![]))],
        "counting",
        vec![
            named("count", "&mut u32"),
            receiver(),
            named("input", "&Event"),
            named("limit", "&u32"),
        ],
    );
    let machine = plain_machine();
    let state = analyze_state(&handler, &machine).unwrap();
    assert_eq!(state.handler_name, "counting");
    assert_eq!(state.inputs, handler.inputs.iter().collect::<Vec<_>>());
    assert_eq!(state.object_input, Some(&handler.inputs[1]));
    assert_eq!(state.state_inputs, vec![&handler.inputs[0], &handler.inputs[3]]);
    assert_eq!(state.external_inputs, vec![&handler.inputs[2]]);
    assert_eq!(state.superstate, None);
    assert_eq!(state.entry_action, None);
    assert_eq!(state.exit_action, None);
}

#[test]
fn handler_without_receiver_has_no_object_input() {
    let handler = method(vec![attribute(word("superstate"))], "free", vec![named("input", "&Event")]);
    let machine = plain_machine();
    let superstate = analyze_superstate(&handler, &machine).unwrap();
    assert_eq!(superstate.object_input, None);
    assert_eq!(superstate.external_inputs, vec![&handler.inputs[0]]);
    assert_eq!(superstate.state_inputs, Vec::<&FnArg>::new());
}

#[test]
fn superstate_reads_settings_of_superstate_attribute_only() {
    let handler = method(
        vec![
            attribute(list("state", metas(vec![pair("superstate", "wrong")]))),
            attribute(list(
                "superstate",
                metas(vec![pair("superstate", "outer"), pair("exit_action", "leave")]),
            )),
        ],
        "inner",
        vec![receiver()],
    );
    let machine = plain_machine();
    let superstate = analyze_superstate(&handler, &machine).unwrap();
    assert_eq!(superstate.superstate, Some("outer".to_string()));
    assert_eq!(superstate.entry_action, None);
    assert_eq!(superstate.exit_action, Some("leave".to_string()));
    let state = analyze_state(&handler, &machine).unwrap();
    assert_eq!(state.superstate, Some("wrong".to_string()));
    assert_eq!(state.exit_action, None);
}

#[test]
fn last_setting_wins_and_other_literals_are_passed_over() {
    let handler = method(
        vec![
            attribute(list(
                "state",
                metas(vec![pair("superstate", "first"), pair_of_other("entry_action")]),
            )),
            attribute(list(
                "state",
                metas(vec![pair("superstate", "second"), pair_of_other("superstate")]),
            )),
        ],
        "on",
        vec![],
    );
    let state = analyze_state(&handler, &plain_machine()).unwrap();
    assert_eq!(state.superstate, Some("second".to_string()));
    assert_eq!(state.entry_action, None);
}

#[test]
fn unknown_handler_setting_is_an_error() {
    let machine = plain_machine();
    let with_word = method(vec![attribute(list("state", metas(vec![word("superstate")])))], "on", vec![]);
    assert_eq!(analyze_state(&with_word, &machine), Err(AnalyzeError::UnknownAttribute));
    let with_name = method(vec![attribute(list("state", metas(vec![pair("name", "x")])))], "on", vec![]);
    assert_eq!(analyze_state(&with_name, &machine), Err(AnalyzeError::UnknownAttribute));
    let with_list =
        method(vec![attribute(list("superstate", metas(vec![list("derive", vec![])])))], "on", vec![]);
    assert_eq!(analyze_superstate(&with_list, &machine), Err(AnalyzeError::UnknownAttribute));
    assert!(analyze_state(&with_list, &machine).is_ok());
}

#[test]
fn patterns_other_than_identifiers_are_errors() {
    let machine = plain_machine();
    let cases = vec![
        (Pat::Tuple(vec![]), AnalyzeError::TuplePattern),
        (Pat::TupleStruct(vec![]), AnalyzeError::TupleStructPattern),
        (Pat::Struct(vec![]), AnalyzeError::StructPattern),
        (Pat::Range, AnalyzeError::UnsupportedPattern),
        (Pat::Other, AnalyzeError::UnsupportedPattern),
    ];
    for (pat, error) in cases {
        let handler = method(vec![], "on", vec![receiver(), typed(pat, "T")]);
        assert_eq!(analyze_state(&handler, &machine), Err(error));
        assert_eq!(analyze_superstate(&handler, &machine), Err(error));
    }
}

#[test]
fn first_bad_pattern_decides_the_error_and_comes_before_attributes() {
    let handler = method(
        vec![attribute(list("state", metas(vec![word("bad")])))],
        "on",
        vec![typed(Pat::Struct(vec![]), "A"), typed(Pat::Tuple(vec![]), "B")],
    );
    assert_eq!(analyze_state(&handler, &plain_machine()), Err(AnalyzeError::StructPattern));
}

#[test]
fn action_keeps_name_and_inputs() {
    let handler = method(vec![], "enter", vec![receiver(), typed(Pat::Tuple(vec![]), "(u8, u8)")]);
    let action = analyze_action(&handler);
    assert_eq!(action.handler_name, "enter");
    assert_eq!(action.inputs, vec![&handler.inputs[0], &handler.inputs[1]]);
}

#[test]
fn state_machine_defaults() {
    let item_impl = impl_block(vec![attribute(word("state_machine"))], vec![]);
    assert_eq!(analyze_state_machine(&item_impl), Ok(plain_machine()));
}

#[test]
fn state_machine_names_and_derives() {
    let item_impl = impl_block(
        vec![
            attribute(list(
                "state",
                metas(vec![
                    pair("name", "Mode"),
                    list("derive", metas(vec![word("Debug"), pair("x", "y")])),
                    pair("name", "Phase"),
                ]),
            )),
            attribute(list("superstate", metas(vec![list("derive", metas(vec![word("serde::Serialize")]))]))),
            attribute(list("state", metas(vec![list("derive", metas(vec![list("Clone", vec![])]))]))),
            attribute(list("superstate", metas(vec![pair("name", "Group")]))),
        ],
        vec![],
    );
    let machine = analyze_state_machine(&item_impl).unwrap();
    assert_eq!(machine.object_ty, "Blinky");
    assert_eq!(machine.state_name, "Phase");
    assert_eq!(machine.state_derives, vec![&path("Debug"), &path("x"), &path("Clone")]);
    assert_eq!(machine.superstate_name, "Group");
    assert_eq!(machine.superstate_derives, vec![&path("serde::Serialize")]);
    assert_eq!(machine.input, Pat::Ident("input".to_string()));
    assert_eq!(machine.input_idents, vec!["input".to_string()]);
}

#[test]
fn state_machine_errors() {
    let not_a_string = impl_block(vec![attribute(list("state", metas(vec![pair_of_other("name")])))], vec![]);
    assert_eq!(analyze_state_machine(&not_a_string), Err(AnalyzeError::ExpectedStringLiteral));

    let literal_in_list = impl_block(
        vec![attribute(list(
            "superstate",
            metas(vec![list("derive", vec![NestedMeta::Meta(word("Copy")), NestedMeta::Lit(Lit::Other)])]),
        ))],
        vec![],
    );
    assert_eq!(analyze_state_machine(&literal_in_list), Err(AnalyzeError::ExpectedListOfTraits));

    let unknown_pair = impl_block(vec![attribute(list("state", metas(vec![pair("title", "x")])))], vec![]);
    assert_eq!(analyze_state_machine(&unknown_pair), Err(AnalyzeError::UnknownAttribute));

    let unknown_list = impl_block(vec![attribute(list("state", metas(vec![list("derived", vec![])])))], vec![]);
    assert_eq!(analyze_state_machine(&unknown_list), Err(AnalyzeError::UnknownAttribute));

    let unknown_word = impl_block(vec![attribute(list("superstate", metas(vec![word("derive")])))], vec![]);
    assert_eq!(analyze_state_machine(&unknown_word), Err(AnalyzeError::UnknownAttribute));
}

#[test]
fn state_settings_fail_before_superstate_settings() {
    let item_impl = impl_block(
        vec![
            attribute(list("superstate", metas(vec![pair_of_other("name")]))),
            attribute(list("state", metas(vec![word("oops")]))),
        ],
        vec![],
    );
    assert_eq!(analyze_state_machine(&item_impl), Err(AnalyzeError::UnknownAttribute));
}

#[test]
fn analyze_passes_errors_on() {
    let bad_settings = impl_block(vec![attribute(list("state", metas(vec![word("oops")])))], vec![]);
    assert_eq!(analyze(&bad_settings).err(), Some(AnalyzeError::UnknownAttribute));

    let bad_state = impl_block(
        vec![],
        vec![
            method(vec![attribute(word("action"))], "fine", vec![typed(Pat::Tuple(vec![]), "T")]),
            method(vec![attribute(word("state"))], "on", vec![typed(Pat::Tuple(vec![]), "T")]),
            method(vec![attribute(word("superstate"))], "up", vec![typed(Pat::Struct(vec![]), "T")]),
        ],
    );
    assert_eq!(analyze(&bad_state).err(), Some(AnalyzeError::TuplePattern));
}

#[test]
fn unmarked_methods_and_other_items_are_passed_over() {
    let item_impl = ItemImpl {
        attrs: vec![],
        self_ty: "Blinky".to_string(),
        items: vec![
            ImplItem::Other,
            ImplItem::Method(method(vec![], "helper", vec![typed(Pat::Other, "T")])),
            ImplItem::Method(method(vec![attribute(word("inline"))], "fast", vec![])),
            ImplItem::Other,
        ],
    };
    let model = analyze(&item_impl).unwrap();
    assert!(model.states.is_empty());
    assert!(model.superstates.is_empty());
    assert!(model.actions.is_empty());
}

#[test]
fn method_with_several_marks_is_each_of_them() {
    let item_impl = impl_block(
        vec![],
        vec![method(
            vec![attribute(word("state")), attribute(word("action")), attribute(word("superstate"))],
            "both",
            vec![receiver()],
        )],
    );
    let model = analyze(&item_impl).unwrap();
    assert!(model.states.contains_key("both"));
    assert!(model.superstates.contains_key("both"));
    assert!(model.actions.contains_key("both"));
}

#[test]
fn later_method_replaces_earlier_one_of_the_same_name() {
    let item_impl = impl_block(
        vec![],
        vec![
            method(vec![attribute(list("state", metas(vec![pair("superstate", "a")])))], "on", vec![]),
            method(vec![attribute(word("state"))], "off", vec![]),
            method(vec![attribute(list("state", metas(vec![pair("superstate", "b")])))], "on", vec![]),
            method(vec![attribute(word("action"))], "on", vec![receiver()]),
        ],
    );
    let model = analyze(&item_impl).unwrap();
    assert_eq!(model.states.len(), 2);
    assert_eq!(model.states.get("on").unwrap().superstate, Some("b".to_string()));
    assert_eq!(model.states.get("off").unwrap().superstate, None);
    assert_eq!(model.actions.len(), 1);
}

#[test]
fn error_messages() {
    assert_eq!(AnalyzeError::ExpectedStringLiteral.message(), "expected string literal");
    assert_eq!(AnalyzeError::ExpectedListOfTraits.message(), "expected list of traits");
    assert_eq!(AnalyzeError::UnknownAttribute.message(), "unknown attribute");
    assert_eq!(AnalyzeError::TuplePattern.message(), "tuple patterns are not supported");
    assert_eq!(AnalyzeError::TupleStructPattern.message(), "tuple struct patterns are not supported");
    assert_eq!(AnalyzeError::StructPattern.message(), "struct patterns are not supported");
    assert_eq!(AnalyzeError::UnsupportedPattern.message(), "patterns are not supported");
    assert_eq!(AnalyzeError::UnsupportedPatternType.message(), "pattern type is not supported");
}

#[test]
fn path_is_ident_only_as_one_segment() {
    assert!(path("state").is_ident("state"));
    assert!(!path("state").is_ident("superstate"));
    assert!(!path("a::state").is_ident("state"));
    assert!(!Path { segments: vec![] }.is_ident("state"));
}

#[test]
fn meta_path_is_its_first_path() {
    assert_eq!(*word("a").path(), path("a"));
    assert_eq!(*list("b", vec![]).path(), path("b"));
    assert_eq!(*pair("c", "d").path(), path("c"));
}
