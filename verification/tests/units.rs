use lems_collapse::boolean::{Boolean, Relation};
use lems_collapse::component::{drop_name, put_name};
use lems_collapse::context::Context;
use lems_collapse::dict::Dict;
use lems_collapse::error::Error;
use lems_collapse::expr::{Expr, Number, Quantity, ONE_BITS, ZERO_BITS};
use lems_collapse::instance::{ComponentType, Instance, Kinetic};
use lems_collapse::lexer::{literals, tokens, Token};
use lems_collapse::lems::file::LemsFile;
use lems_collapse::lems::raw;
use lems_collapse::lexicon::Lexicon;
use lems_collapse::path::{Match, Path};
use lems_collapse::text::{contains, index_of, join_with, same, split_on, starts_with};
use lems_collapse::variable::{SelectBy, VarKind, Variable};
use lems_collapse::xml::{parse_int, XmlNode};

fn el(tag: &str, attributes: &[(&str, &str)], children: Vec<XmlNode>) -> XmlNode {
    XmlNode {
        tag: tag.to_string(),
        attributes: attributes.iter().map(|(k, v)| (k.to_string(), v.to_string())).collect(),
        children,
    }
}

fn num(x: f64) -> Number {
    Number::from_bits(x.to_bits())
}

fn lit(x: f64) -> Expr {
    Expr::Num(num(x))
}

fn var(name: &str) -> Expr {
    Expr::Var(name.to_string())
}

fn names(v: &[&str]) -> Vec<String> {
    v.iter().map(|s| s.to_string()).collect()
}

#[test]
fn zero_and_one_have_their_bit_patterns() {
    assert_eq!(ZERO_BITS, 0.0f64.to_bits());
    assert_eq!(ONE_BITS, 1.0f64.to_bits());
    assert_eq!(Number::zero(), num(0.0));
    assert_eq!(Number::one(), num(1.0));
    assert_eq!(Number::from_bits(7).bits, 7);
}

#[test]
fn texts_are_split_and_joined() {
    assert_eq!(split_on("a,b,,c", ','), names(&["a", "b", "", "c"]));
    assert_eq!(split_on("", ','), names(&[""]));
    assert_eq!(split_on("a,", ','), names(&["a", ""]));
    assert_eq!(join_with(&names(&["a", "b", "c"]), "_"), "a_b_c");
    assert_eq!(join_with(&names(&["a"]), "_"), "a");
    assert_eq!(join_with(&names(&[]), "_"), "");
    assert!(same("abc", "abc") && !same("abc", "abd") && !same("abc", "ab"));
    assert!(starts_with("abc", "ab") && starts_with("abc", "") && !starts_with("ab", "abc"));
    assert!(contains(&names(&["a", "b"]), "b") && !contains(&names(&["a", "b"]), "c"));
    assert_eq!(index_of("a[b[", '['), Some(1));
    assert_eq!(index_of("abc", '['), None);
}

#[test]
fn integers_are_read_exactly() {
    assert_eq!(parse_int("0"), Some(0));
    assert_eq!(parse_int("-17"), Some(-17));
    assert_eq!(parse_int("+12"), Some(12));
    assert_eq!(parse_int("0012"), Some(12));
    assert_eq!(parse_int("9223372036854775807"), Some(i64::MAX));
    assert_eq!(parse_int("-9223372036854775808"), Some(i64::MIN));
    assert_eq!(parse_int("9223372036854775808"), None);
    assert_eq!(parse_int("-9223372036854775809"), None);
    assert_eq!(parse_int("00000000000000000000000000000009"), Some(9));
    assert_eq!(parse_int(""), None);
    assert_eq!(parse_int("-"), None);
    assert_eq!(parse_int("+"), None);
    assert_eq!(parse_int("1a"), None);
    assert_eq!(parse_int(" 1"), None);
    assert_eq!(parse_int("1.0"), None);
}

#[test]
fn dictionary_keeps_the_place_of_a_key() {
    let mut d: Dict<String> = Dict::new();
    d.insert("a".to_string(), "1".to_string());
    d.insert("b".to_string(), "2".to_string());
    d.insert("a".to_string(), "3".to_string());
    assert_eq!(d.keys(), names(&["a", "b"]));
    assert_eq!(d.get("a"), Some(&"3".to_string()));
    assert_eq!(d.get("c"), None);
    assert_eq!(d.position("b"), Some(1));
    assert!(d.contains_key("b") && !d.contains_key("c"));
    assert_eq!(d.len(), 2);
    assert_eq!(d.key_at(1), "b");
    assert_eq!(d.value_at(1), "2");
    let mut e: Dict<String> = Dict::new();
    e.insert("c".to_string(), "4".to_string());
    e.insert("b".to_string(), "5".to_string());
    d.absorb(e);
    assert_eq!(
        d.entries,
        vec![
            ("a".to_string(), "3".to_string()),
            ("b".to_string(), "5".to_string()),
            ("c".to_string(), "4".to_string())
        ]
    );
}

#[test]
fn expressions_are_tidied() {
    let nested = Expr::Add(vec![
        var("a"),
        lit(0.0),
        Expr::Add(vec![var("b"), Expr::Add(vec![lit(0.0), var("c")])]),
    ]);
    assert_eq!(nested.simplify(), Expr::Add(vec![var("a"), var("b"), var("c")]));
    assert_eq!(Expr::Add(vec![lit(0.0), lit(0.0)]).simplify(), lit(0.0));
    assert_eq!(Expr::Add(vec![lit(0.0), var("x")]).simplify(), var("x"));
    assert_eq!(Expr::Add(vec![]).simplify(), lit(0.0));
    assert_eq!(Expr::Mul(vec![]).simplify(), lit(1.0));
    assert_eq!(Expr::Mul(vec![lit(1.0), var("x")]).simplify(), var("x"));
    assert_eq!(Expr::Mul(vec![var("y"), lit(0.0), var("x")]).simplify(), lit(0.0));
    assert_eq!(
        Expr::Mul(vec![lit(2.0), Expr::Mul(vec![var("x"), lit(1.0)]), lit(3.0)]).simplify(),
        Expr::Mul(vec![lit(2.0), var("x"), lit(3.0)])
    );
    assert_eq!(
        Expr::Pow(vec![Expr::Add(vec![var("x"), lit(0.0)]), lit(2.0)]).simplify(),
        Expr::Pow(vec![var("x"), lit(2.0)])
    );
    assert_eq!(
        Expr::Fun("exp".to_string(), vec![Expr::Mul(vec![lit(1.0), var("x")])]).simplify(),
        Expr::Fun("exp".to_string(), vec![var("x")])
    );
    assert_eq!(Expr::Add(vec![lit(2.0), lit(3.0)]).simplify(), Expr::Add(vec![lit(2.0), lit(3.0)]));
    let tidy = nested.simplify();
    assert_eq!(tidy.simplify(), tidy);
    assert!(lit(0.0).is_zero() && !lit(-0.0).is_zero() && lit(1.0).is_one());
}

#[test]
fn expressions_are_substituted_once() {
    let mut table: Dict<Expr> = Dict::new();
    table.insert("a".to_string(), var("b"));
    table.insert("b".to_string(), lit(2.0));
    let e = Expr::Add(vec![var("a"), var("b"), var("c")]);
    assert_eq!(e.substitute(&table), Expr::Add(vec![var("b"), lit(2.0), var("c")]));
    assert!(e.equals(&e.dup()) && !e.equals(&var("a")));
    let c = Boolean::And(
        Box::new(Boolean::Test(Relation::Lt, var("a"), lit(1.0))),
        Box::new(Boolean::Or(
            Box::new(Boolean::Lit(true)),
            Box::new(Boolean::Test(Relation::Eq, var("b"), Expr::Add(vec![var("a"), lit(0.0)]))),
        )),
    );
    assert_eq!(
        c.substitute(&table).simplify(),
        Boolean::And(
            Box::new(Boolean::Test(Relation::Lt, var("b"), lit(1.0))),
            Box::new(Boolean::Or(
                Box::new(Boolean::Lit(true)),
                Box::new(Boolean::Test(Relation::Eq, lit(2.0), var("b"))),
            )),
        )
    );
    assert!(c.equals(&c.dup()) && !c.equals(&Boolean::Lit(true)));
}

#[test]
fn patterns_are_read() {
    assert_eq!(
        Match::parse("gates[*]/fcond"),
        Ok(Match(vec![
            Path::When("gates".to_string(), "*".to_string()),
            Path::Fixed("fcond".to_string())
        ]))
    );
    assert_eq!(
        Match::parse("a/b[c]/d"),
        Ok(Match(vec![
            Path::Fixed("a".to_string()),
            Path::When("b".to_string(), "c".to_string()),
            Path::Fixed("d".to_string())
        ]))
    );
    assert_eq!(Match::parse("states[*]").unwrap().label(), "states");
    for bad in ["", "a//b", "a[", "a[]", "[b]", "a]b", "a[b]c", "a[b[c]]", "*", "a[*]/*", "a/"] {
        assert_eq!(Match::parse(bad), Err(Error::BadExpr));
    }
}

#[test]
fn patterns_select_names_in_order() {
    let m = Match::parse("gates[*]/fcond").unwrap().add_prefix(&names(&["na"]));
    assert_eq!(
        m,
        Match(vec![
            Path::Fixed("na".to_string()),
            Path::When("gates".to_string(), "*".to_string()),
            Path::Fixed("fcond".to_string())
        ])
    );
    assert_eq!(m.label(), "na_gates_fcond");
    let keys = names(&[
        "na_gates_m_fcond",
        "na_gates_m_q",
        "k_gates_n_fcond",
        "na_gates_h_fcond",
        "na_gates_fcond",
        "na_gates_m_fcond_x",
    ]);
    assert_eq!(m.on_path(&keys), names(&["na_gates_m_fcond", "na_gates_h_fcond"]));
    assert!(m.admits("na_gates_m_fcond") && !m.admits("na_gates_fcond"));
    let one = Match::parse("gates[m]/fcond").unwrap();
    assert_eq!(
        one.on_path(&names(&["gates_m_fcond", "gates_h_fcond"])),
        names(&["gates_m_fcond"])
    );
    assert!(one.equals(&one.dup()) && !one.equals(&m));
}

#[test]
fn context_names_from_the_defining_scope() {
    let mut ctx = Context::new();
    assert_eq!(ctx.add_prefix("x"), "x");
    assert!(ctx.keys().is_empty());
    ctx.enter("", &names(&["top"]));
    ctx.enter("cell", &names(&["v", "x"]));
    ctx.enter("channels", &names(&[]));
    ctx.enter("na", &names(&["g", "x"]));
    assert_eq!(ctx.keys(), names(&["cell", "channels", "na"]));
    assert_eq!(ctx.add_prefix("g"), "cell_channels_na_g");
    assert_eq!(ctx.rename("g"), "cell_channels_na_g");
    assert_eq!(ctx.rename("x"), "cell_channels_na_x");
    assert_eq!(ctx.rename("v"), "cell_v");
    assert_eq!(ctx.rename("top"), "top");
    assert_eq!(ctx.rename("elsewhere"), "elsewhere");
    assert_eq!(
        ctx.rename_expr(&Expr::Add(vec![var("v"), Expr::Mul(vec![var("g"), var("t")])])),
        Expr::Add(vec![var("cell_v"), Expr::Mul(vec![var("cell_channels_na_g"), var("t")])])
    );
    assert_eq!(
        ctx.rename_bool(&Boolean::Test(Relation::Ge, var("v"), lit(0.0))),
        Boolean::Test(Relation::Ge, var("cell_v"), lit(0.0))
    );
    assert_eq!(
        ctx.rename_kind(&VarKind::Select(SelectBy::Sum, Match::parse("gates[*]/q").unwrap())),
        VarKind::Select(
            SelectBy::Sum,
            Match::parse("cell/channels/na/gates[*]/q").unwrap()
        )
    );
    assert_eq!(
        ctx.rename_kind(&VarKind::State(Some(var("v")), None)),
        VarKind::State(Some(var("cell_v")), None)
    );
    let copy = ctx.dup();
    ctx.exit();
    assert_eq!(ctx.keys(), names(&["cell", "channels"]));
    assert_eq!(copy.keys(), names(&["cell", "channels", "na"]));
    ctx.exit();
    ctx.exit();
    ctx.exit();
    ctx.exit();
    assert_eq!(ctx, Context::new());
}

#[test]
fn kinetic_scheme_is_read_and_prefixed() {
    let ks = raw::KineticScheme::from_node(&el(
        "KineticScheme",
        &[
            ("name", "scheme"),
            ("nodes", "states"),
            ("stateVariable", "occupancy"),
            ("edges", "transitions"),
            ("edgeSource", "from"),
            ("edgeTarget", "to"),
            ("forwardRate", "f"),
            ("reverseRate", "b"),
        ],
        vec![],
    ))
    .unwrap();
    let k = Kinetic::new(&ks).unwrap();
    assert_eq!(k.node, Match(vec![Path::When("states".to_string(), "*".to_string())]));
    assert_eq!(k.edge, Match(vec![Path::When("transitions".to_string(), "*".to_string())]));
    assert_eq!((k.state.as_str(), k.rfwd.as_str(), k.rbwd.as_str()), ("occupancy", "f", "b"));
    let mut ctx = Context::new();
    ctx.enter("ch", &names(&[]));
    let p = k.add_prefix(&ctx);
    assert_eq!(p.name, "ch_scheme");
    assert_eq!(p.node, Match::parse("ch/states[*]").unwrap());
    assert_eq!(p.edge, Match::parse("ch/transitions[*]").unwrap());
    assert_eq!(p.dup(), p);
}

#[test]
fn elements_are_read_with_their_defaults() {
    let d = raw::Dimension::from_node(&el("Dimension", &[("name", "voltage"), ("m", "1"), ("i", "-1")], vec![]))
        .unwrap();
    assert_eq!((d.m, d.l, d.t, d.i, d.k, d.n), (1, 0, 0, -1, 0, 0));
    let u = raw::Unit::from_node(&el("Unit", &[("symbol", "mV"), ("dimension", "voltage"), ("power", "-3")], vec![]))
        .unwrap();
    assert_eq!((u.power, u.scale.as_str(), u.offset.as_str()), (-3, "1", "0"));
    let c = raw::Children::from_node(&el("Children", &[("name", "gates"), ("max", "4")], vec![])).unwrap();
    assert_eq!((c.type_, c.min, c.max), (None, None, Some(4)));
    let p = raw::Parameter::from_node(&el("Parameter", &[("name", "p")], vec![])).unwrap();
    assert_eq!((p.dimension.as_str(), p.description), ("none", None));
    assert_eq!(raw::Component::from_node(&el("Component", &[("id", "x")], vec![])), Ok(raw::Component {}));
}

#[test]
fn malformed_elements_are_refused() {
    assert_eq!(raw::Parameter::from_node(&el("Parameter", &[], vec![])), Err(Error::XmlParse));
    assert_eq!(
        raw::Dimension::from_node(&el("Dimension", &[("name", "v"), ("m", "one")], vec![])),
        Err(Error::XmlParse)
    );
    assert_eq!(
        raw::Children::from_node(&el("Children", &[("name", "v"), ("min", "")], vec![])),
        Err(Error::XmlParse)
    );
    assert_eq!(
        raw::Dynamics::from_node(&el("Dynamics", &[], vec![el("Statevariable", &[("name", "v")], vec![])])),
        Err(Error::XmlParse)
    );
    assert_eq!(
        raw::Dynamics::from_node(&el("Dynamics", &[], vec![el("StateVariable", &[], vec![])])),
        Err(Error::XmlParse)
    );
    assert_eq!(
        raw::Lems::from_node(&el("Lems", &[], vec![el("ComponentType", &[("name", "A")], vec![el("Nothing", &[], vec![])])])),
        Err(Error::XmlParse)
    );
    assert_eq!(raw::ComponentTypeBody::from_node(&el("Simulations", &[], vec![])).err(), Some(Error::XmlParse));
}

#[test]
fn body_is_read_in_order() {
    let d = raw::Dynamics::from_node(&el(
        "Dynamics",
        &[],
        vec![
            el("StateVariable", &[("name", "v"), ("exposure", "v")], vec![]),
            el("TimeDerivative", &[("variable", "v"), ("value", "1")], vec![]),
            el(
                "OnEvent",
                &[("port", "in")],
                vec![
                    el("StateAssignment", &[("variable", "v"), ("value", "0")], vec![]),
                    el("EventOut", &[("port", "out")], vec![]),
                ],
            ),
            el("Regime", &[("name", "r")], vec![el("OnEntry", &[], vec![])]),
        ],
    ))
    .unwrap();
    assert_eq!(d.body.len(), 4);
    assert!(matches!(&d.body[0], raw::DynamicsBody::StateVariable(v) if v.name == "v" && v.dimension == "none"));
    assert!(matches!(&d.body[1], raw::DynamicsBody::TimeDerivative(v) if v.value == "1"));
    assert!(matches!(&d.body[2], raw::DynamicsBody::OnEvent(v) if v.body.len() == 2));
    assert!(matches!(&d.body[3], raw::DynamicsBody::Regime(v) if v.initial.is_none()));
}

fn param(name: &str) -> XmlNode {
    el("Parameter", &[("name", name)], vec![])
}

fn ctype(name: &str, extends: Option<&str>, body: Vec<XmlNode>) -> XmlNode {
    match extends {
        Some(b) => el("ComponentType", &[("name", name), ("extends", b)], body),
        None => el("ComponentType", &[("name", name)], body),
    }
}

fn registry(types: Vec<XmlNode>, lexicon: Lexicon) -> LemsFile {
    LemsFile::from_raw(raw::Lems::from_node(&el("Lems", &[], types)).unwrap(), lexicon)
}

#[test]
fn names_are_put_and_dropped() {
    let mut v = names(&["a", "b"]);
    put_name(&mut v, "a");
    put_name(&mut v, "c");
    assert_eq!(v, names(&["a", "b", "c"]));
    drop_name(&mut v, "b");
    drop_name(&mut v, "x");
    assert_eq!(v, names(&["a", "c"]));
}

#[test]
fn composition_puts_ancestors_first() {
    let mut lexicon = Lexicon::new();
    lexicon.numbers.insert("1".to_string(), num(1.0));
    lexicon.numbers.insert("5".to_string(), num(5.0));
    let lems = registry(
        vec![
            ctype(
                "base",
                None,
                vec![
                    param("a"),
                    param("b"),
                    el("Exposure", &[("name", "x"), ("dimension", "none")], vec![]),
                    el("Constant", &[("name", "k"), ("value", "1")], vec![]),
                    el("Child", &[("name", "c"), ("type", "T")], vec![]),
                    el("Text", &[("name", "note")], vec![]),
                    el(
                        "Dynamics",
                        &[],
                        vec![
                            el("StateVariable", &[("name", "s")], vec![]),
                            el("DerivedVariable", &[("name", "x"), ("value", "a")], vec![]),
                        ],
                    ),
                ],
            ),
            ctype(
                "mid",
                Some("base"),
                vec![
                    param("c"),
                    el("Fixed", &[("parameter", "a"), ("value", "5 mV")], vec![]),
                    el("Exposure", &[("name", "x"), ("dimension", "voltage")], vec![]),
                    el("Link", &[("name", "to"), ("type", "T")], vec![]),
                    el("Children", &[("name", "cs"), ("type", "T")], vec![]),
                ],
            ),
            ctype(
                "leaf",
                Some("mid"),
                vec![
                    param("b"),
                    param("d"),
                    el(
                        "Dynamics",
                        &[],
                        vec![
                            el("DerivedVariable", &[("name", "x"), ("value", "b")], vec![]),
                            el("TimeDerivative", &[("variable", "s"), ("value", "b")], vec![]),
                        ],
                    ),
                ],
            ),
        ],
        lexicon,
    );
    let ct = lems.compose_component_type("leaf").unwrap();
    assert_eq!(ct.name, "leaf");
    assert_eq!(ct.base, Some("mid".to_string()));
    assert_eq!(ct.parameters, names(&["b", "c", "d"]));
    assert_eq!(ct.attributes, names(&["note"]));
    assert_eq!(ct.exposures.entries, vec![("x".to_string(), "voltage".to_string())]);
    assert_eq!(ct.constants.keys(), names(&["k", "a"]));
    assert_eq!(
        ct.constants.get("a"),
        Some(&Quantity { value: num(5.0), unit: Some("mV".to_string()) })
    );
    assert_eq!(ct.child.entries, vec![("c".to_string(), "T".to_string())]);
    assert_eq!(ct.children.entries, vec![("cs".to_string(), "T".to_string())]);
    assert_eq!(ct.links.entries, vec![("to".to_string(), "T".to_string())]);
    assert_eq!(
        ct.variables,
        vec![
            Variable::new("s", &None, "none", &VarKind::State(None, Some(var("b")))),
            Variable::new("x", &None, "none", &VarKind::Derived(vec![], Some(var("b")))),
        ]
    );
    let alone = ComponentType::from_lems(lems.types.get("leaf").unwrap(), &lems.lexicon);
    assert_eq!(alone.err(), Some(Error::MalformedDynamics));
    assert!(lems.derived_from("leaf", "leaf"));
    assert!(lems.derived_from("leaf", "mid"));
    assert!(lems.derived_from("leaf", "base"));
    assert!(!lems.derived_from("base", "leaf"));
    assert!(!lems.derived_from("leaf", "other"));
    assert!(lems.derived_from("other", "other"));
}

#[test]
fn unknown_types_and_cycles_are_refused() {
    let lems = registry(
        vec![
            ctype("a", Some("b"), vec![]),
            ctype("b", Some("a"), vec![]),
            ctype("c", Some("nowhere"), vec![]),
            ctype("d", Some("c"), vec![]),
            ctype("e", Some("e"), vec![]),
            ctype("f", None, vec![]),
            ctype("g", Some("f"), vec![]),
        ],
        Lexicon::new(),
    );
    assert_eq!(lems.compose_component_type("zzz").err(), Some(Error::UnknownType));
    assert_eq!(lems.compose_component_type("a").err(), Some(Error::Cycle));
    assert_eq!(lems.compose_component_type("e").err(), Some(Error::Cycle));
    assert_eq!(lems.compose_component_type("c").err(), Some(Error::Malformed));
    assert_eq!(lems.compose_component_type("d").err(), Some(Error::Malformed));
    assert!(lems.compose_component_type("g").is_ok());
    assert!(!lems.derived_from("a", "f"));
    assert!(lems.derived_from("a", "b") && lems.derived_from("b", "a"));
    assert_eq!(Instance::new(&lems, &el("zzz", &[], vec![])).err(), Some(Error::UnknownType));
    assert_eq!(
        Instance::new(&lems, &el("zzz", &[("type", "g"), ("id", "x")], vec![])).unwrap().id,
        Some("x".to_string())
    );
}

#[test]
fn attributes_of_a_component_are_sorted_out() {
    let mut lexicon = Lexicon::new();
    lexicon.normalised.insert("1 mV".to_string(), Quantity { value: num(1e-3), unit: None });
    let lems = registry(
        vec![
            ctype(
                "a",
                None,
                vec![
                    param("p"),
                    el("Text", &[("name", "note")], vec![]),
                    el("Link", &[("name", "to"), ("type", "a")], vec![]),
                ],
            ),
        ],
        lexicon,
    );
    let inst = Instance::new(
        &lems,
        &el("a", &[("id", "x"), ("p", "1 mV"), ("note", "1 mV"), ("to", "y")], vec![]),
    )
    .unwrap();
    assert_eq!(inst.parameters.entries, vec![("p".to_string(), Quantity { value: num(1e-3), unit: None })]);
    assert_eq!(
        inst.attributes.entries,
        vec![("note".to_string(), "1 mV".to_string()), ("to".to_string(), "y".to_string())]
    );
    assert_eq!(inst.id, Some("x".to_string()));
    assert_eq!(Instance::new(&lems, &el("a", &[("q", "1 mV")], vec![])).err(), Some(Error::UnknownKey));
    assert_eq!(Instance::new(&lems, &el("a", &[("p", "2 mV")], vec![])).err(), Some(Error::BadQuantity));
}

#[test]
fn element_joins_every_group_it_derives_from() {
    let lems = registry(
        vec![
            ctype(
                "cell",
                None,
                vec![
                    el("Children", &[("name", "all"), ("type", "base")], vec![]),
                    el("Children", &[("name", "fast"), ("type", "fast")], vec![]),
                ],
            ),
            ctype("base", None, vec![]),
            ctype("fast", Some("base"), vec![]),
        ],
        Lexicon::new(),
    );
    let inst = Instance::new(
        &lems,
        &el(
            "cell",
            &[],
            vec![
                el("fast", &[("id", "f")], vec![]),
                el("base", &[("id", "b")], vec![]),
                el("other", &[("id", "o")], vec![]),
            ],
        ),
    )
    .unwrap();
    let ids = |slot: &str| -> Vec<Option<String>> {
        inst.children.iter().find(|e| e.0 == slot).unwrap().1.iter().map(|i| i.id.clone()).collect()
    };
    assert_eq!(ids("all"), vec![Some("f".to_string()), Some("b".to_string())]);
    assert_eq!(ids("fast"), vec![Some("f".to_string())]);
    assert_eq!(inst.children.len(), 2);
}

#[test]
fn texts_without_a_reading_are_refused() {
    let body = |entry: XmlNode| ctype("a", None, vec![el("Dynamics", &[], vec![el("StateVariable", &[("name", "s")], vec![]), entry])]);
    let one = || {
        let mut lexicon = Lexicon::new();
        lexicon.numbers.insert("1".to_string(), num(1.0));
        lexicon
    };
    let compose = |entry: XmlNode| registry(vec![body(entry)], one()).compose_component_type("a").err();
    assert_eq!(compose(el("DerivedVariable", &[("name", "x"), ("value", "1 + s")], vec![])), None);
    assert_eq!(compose(el("DerivedVariable", &[("name", "x"), ("value", "2 + s")], vec![])), Some(Error::BadExpr));
    assert_eq!(compose(el("DerivedVariable", &[("name", "x"), ("value", "1 +")], vec![])), Some(Error::BadExpr));
    assert_eq!(compose(el("DerivedVariable", &[("name", "x"), ("select", "a[")], vec![])), Some(Error::BadExpr));
    assert_eq!(compose(el("DerivedVariable", &[("name", "x")], vec![])), Some(Error::MalformedDynamics));
    assert_eq!(compose(el("TimeDerivative", &[("variable", "s"), ("value", "1 +")], vec![])), Some(Error::BadExpr));
    assert_eq!(compose(el("TimeDerivative", &[("variable", "t"), ("value", "1")], vec![])), Some(Error::MalformedDynamics));
    assert_eq!(
        compose(el("OnStart", &[], vec![el("StateAssignment", &[("variable", "t"), ("value", "1")], vec![])])),
        Some(Error::MalformedDynamics)
    );
    assert_eq!(
        compose(el("OnEvent", &[("port", "in")], vec![el("StateAssignment", &[("variable", "t"), ("value", "1")], vec![])])),
        Some(Error::MalformedDynamics)
    );
    assert_eq!(
        compose(el("KineticScheme", &[("name", "k"), ("nodes", "a/"), ("stateVariable", "s"), ("edges", "e"), ("edgeSource", "from"), ("edgeTarget", "to"), ("forwardRate", "f"), ("reverseRate", "r")], vec![])),
        Some(Error::BadExpr)
    );
    let constant = registry(
        vec![ctype("a", None, vec![el("Constant", &[("name", "k"), ("value", "one")], vec![])])],
        Lexicon::new(),
    );
    assert_eq!(constant.compose_component_type("a").err(), Some(Error::BadQuantity));
    let untyped = registry(
        vec![ctype("a", None, vec![el("Children", &[("name", "k")], vec![])])],
        Lexicon::new(),
    );
    assert_eq!(untyped.compose_component_type("a").err(), Some(Error::XmlParse));
}

#[test]
fn errors_describe_themselves() {
    assert_eq!(Error::Cycle.message(), "cyclic inheritance");
    assert_eq!(Error::BadFilter.message(), "filter token without sign");
    assert_ne!(Error::UnknownType.message(), Error::Malformed.message());
}

#[test]
fn document_is_read_as_a_tree_of_elements() {
    let root = XmlNode::parse(
        r#"<?xml version="1.0"?>
           <!-- before -->
           <a x="1" y="2">
             text
             <b/>
             <!-- between -->
             <c z="3"><d/><e>more</e></c>
             <?pi here?>
             <b k="v"/>
           </a>"#,
    )
    .unwrap();
    assert_eq!(
        root,
        el(
            "a",
            &[("x", "1"), ("y", "2")],
            vec![
                el("b", &[], vec![]),
                el("c", &[("z", "3")], vec![el("d", &[], vec![]), el("e", &[], vec![])]),
                el("b", &[("k", "v")], vec![]),
            ]
        )
    );
    assert_eq!(root.attribute("y"), Some(&"2".to_string()));
    assert_eq!(root.attribute("z"), None);
    assert_eq!(XmlNode::parse("<a><b></a>"), Err(Error::XmlParse));
    assert_eq!(XmlNode::parse(""), Err(Error::XmlParse));
    assert_eq!(XmlNode::parse("plain"), Err(Error::XmlParse));
}

#[test]
fn scan_is_put_together_by_parents() {
    let node = |id: usize, parent: Option<usize>, element: bool, tag: &str| {
        (id, parent, element, tag.to_string(), vec![("id".to_string(), tag.to_string())])
    };
    let scan = vec![
        node(1, None, false, ""),
        node(2, Some(1), false, "note"),
        node(3, Some(1), true, "a"),
        node(4, Some(3), true, "b"),
        node(5, Some(4), true, "c"),
        node(6, Some(4), false, "t"),
        node(7, Some(3), true, "d"),
        node(8, Some(1), true, "z"),
    ];
    let leaf = |tag: &str, children: Vec<XmlNode>| el(tag, &[("id", tag)], children);
    assert_eq!(
        lems_collapse::document::root_of(&scan),
        Ok(leaf("a", vec![leaf("b", vec![leaf("c", vec![])]), leaf("d", vec![])]))
    );
    assert_eq!(lems_collapse::document::build_element(&scan, 3), leaf("b", vec![leaf("c", vec![])]));
    assert_eq!(lems_collapse::document::root_of(&vec![node(1, None, false, "")]), Err(Error::XmlParse));
    assert_eq!(lems_collapse::document::root_of(&vec![]), Err(Error::XmlParse));
}

fn numbers(v: &[&str]) -> Dict<Number> {
    let mut d: Dict<Number> = Dict::new();
    for n in v {
        d.insert(n.to_string(), num(n.parse::<f64>().unwrap()));
    }
    d
}

fn minus(e: Expr) -> Expr {
    Expr::Mul(vec![lit(-1.0), e])
}

fn over(e: Expr) -> Expr {
    Expr::Pow(vec![e, lit(-1.0)])
}

#[test]
fn texts_are_cut_into_tokens() {
    assert_eq!(
        tokens("a1 +2.5e-3*(b_c)"),
        Some(vec![
            Token::Name("a1".to_string()),
            Token::Symbol('+'),
            Token::Number("2.5e-3".to_string()),
            Token::Symbol('*'),
            Token::Symbol('('),
            Token::Name("b_c".to_string()),
            Token::Symbol(')'),
        ])
    );
    assert_eq!(
        tokens("v.geq.1 .and. w .neq. .5E+2 .or. x.lt.y"),
        Some(vec![
            Token::Name("v".to_string()),
            Token::Relation(Relation::Ge),
            Token::Number("1".to_string()),
            Token::And,
            Token::Name("w".to_string()),
            Token::Relation(Relation::Ne),
            Token::Number(".5E+2".to_string()),
            Token::Or,
            Token::Name("x".to_string()),
            Token::Relation(Relation::Lt),
            Token::Name("y".to_string()),
        ])
    );
    assert_eq!(
        tokens("2e 3e+ 4"),
        Some(vec![
            Token::Number("2".to_string()),
            Token::Name("e".to_string()),
            Token::Number("3".to_string()),
            Token::Name("e".to_string()),
            Token::Symbol('+'),
            Token::Number("4".to_string()),
        ])
    );
    assert_eq!(tokens(""), Some(vec![]));
    assert_eq!(tokens(" \t\n"), Some(vec![]));
    assert_eq!(tokens("a # b"), None);
    assert_eq!(tokens("a .foo. b"), None);
    assert_eq!(tokens("a . b"), None);
    assert_eq!(tokens("4.x"), None);
    assert_eq!(literals("2*x + 3.0e1 - 2"), names(&["2", "3.0e1", "2"]));
    assert_eq!(literals("x # 2"), names(&[]));
}

#[test]
fn expressions_are_read() {
    let n = numbers(&["1", "2", "3", "0.5"]);
    let parse = |t: &str| Expr::parse(t, &n);
    assert_eq!(parse("x"), Ok(var("x")));
    assert_eq!(parse("2"), Ok(lit(2.0)));
    assert_eq!(parse("(x)"), Ok(var("x")));
    assert_eq!(parse("a + b + c"), Ok(Expr::Add(vec![var("a"), var("b"), var("c")])));
    assert_eq!(parse("a - b"), Ok(Expr::Add(vec![var("a"), minus(var("b"))])));
    assert_eq!(
        parse("a + b * c"),
        Ok(Expr::Add(vec![var("a"), Expr::Mul(vec![var("b"), var("c")])]))
    );
    assert_eq!(
        parse("(a + b) * c"),
        Ok(Expr::Mul(vec![Expr::Add(vec![var("a"), var("b")]), var("c")]))
    );
    assert_eq!(parse("a / b * c"), Ok(Expr::Mul(vec![var("a"), over(var("b")), var("c")])));
    assert_eq!(
        parse("a ^ b ^ c"),
        Ok(Expr::Pow(vec![var("a"), Expr::Pow(vec![var("b"), var("c")])]))
    );
    assert_eq!(
        parse("-a ^ 2 * b"),
        Ok(Expr::Mul(vec![Expr::Pow(vec![minus(var("a")), lit(2.0)]), var("b")]))
    );
    assert_eq!(parse("--a"), Ok(minus(minus(var("a")))));
    assert_eq!(parse("+a"), Ok(var("a")));
    assert_eq!(
        parse("exp((v - 1) / 2)"),
        Ok(Expr::Fun(
            "exp".to_string(),
            vec![Expr::Mul(vec![Expr::Add(vec![var("v"), minus(lit(1.0))]), over(lit(2.0))])]
        ))
    );
    assert_eq!(
        parse("f(a, b + 1, 3)"),
        Ok(Expr::Fun(
            "f".to_string(),
            vec![var("a"), Expr::Add(vec![var("b"), lit(1.0)]), lit(3.0)]
        ))
    );
    assert_eq!(parse("0.5*x"), Ok(Expr::Mul(vec![lit(0.5), var("x")])));
    for bad in ["", "a +", "* a", "(a", "a)", "a b", "f()", "f(a,)", "4 * x", "a .gt. b", "a ^", "a,b"] {
        assert_eq!(parse(bad), Err(Error::BadExpr));
    }
}

#[test]
fn conditions_are_read() {
    let n = numbers(&["0", "1"]);
    let parse = |t: &str| Boolean::parse(t, &n);
    let test = |r: Relation, a: &str, b: &str| Boolean::Test(r, var(a), var(b));
    assert_eq!(parse("a .gt. b"), Ok(test(Relation::Gt, "a", "b")));
    assert_eq!(parse("a .eq. b"), Ok(test(Relation::Eq, "a", "b")));
    assert_eq!(parse("a .leq. b"), Ok(test(Relation::Le, "a", "b")));
    assert_eq!(
        parse("(v + 1) .lt. 0"),
        Ok(Boolean::Test(Relation::Lt, Expr::Add(vec![var("v"), lit(1.0)]), lit(0.0)))
    );
    assert_eq!(
        parse("a .lt. b .and. c .gt. d .or. e .neq. f .and. g .geq. h"),
        Ok(Boolean::Or(
            Box::new(Boolean::And(
                Box::new(test(Relation::Lt, "a", "b")),
                Box::new(test(Relation::Gt, "c", "d"))
            )),
            Box::new(Boolean::And(
                Box::new(test(Relation::Ne, "e", "f")),
                Box::new(test(Relation::Ge, "g", "h"))
            )),
        ))
    );
    assert_eq!(
        parse("a .lt. b .and. c .gt. d .and. e .neq. f"),
        Ok(Boolean::And(
            Box::new(Boolean::And(
                Box::new(test(Relation::Lt, "a", "b")),
                Box::new(test(Relation::Gt, "c", "d"))
            )),
            Box::new(test(Relation::Ne, "e", "f")),
        ))
    );
    for bad in ["", "a", "a .gt.", ".gt. a", "a .gt. b .and.", "a .gt. b c", "a .gt. 2", "a .and. b"] {
        assert_eq!(parse(bad), Err(Error::BadExpr));
    }
}

#[test]
fn quantities_are_read() {
    let n = numbers(&["70", "1e-3", "0"]);
    let parse = |t: &str| Quantity::parse(t, &n);
    assert_eq!(parse("70"), Ok(Quantity { value: num(70.0), unit: None }));
    assert_eq!(parse("70mV"), Ok(Quantity { value: num(70.0), unit: Some("mV".to_string()) }));
    assert_eq!(parse(" -70 mV "), Ok(Quantity { value: num(-70.0), unit: Some("mV".to_string()) }));
    assert_eq!(parse("+1e-3 per_ms"), Ok(Quantity { value: num(1e-3), unit: Some("per_ms".to_string()) }));
    assert_eq!(parse("-0"), Ok(Quantity { value: num(-0.0), unit: None }));
    assert_eq!(Number::from_bits(num(2.5).bits).negated(), num(-2.5));
    assert_eq!(num(-2.5).negated(), num(2.5));
    for bad in ["", "mV", "70 mV s", "71", "70 + 70", "- mV", "--70"] {
        assert_eq!(parse(bad), Err(Error::BadQuantity));
    }
}
