use lems_collapse::boolean::{Boolean, Relation};
use lems_collapse::collapsed::Collapsed;
use lems_collapse::dict::Dict;
use lems_collapse::error::Error;
use lems_collapse::expr::{Expr, Number, Quantity};
use lems_collapse::instance::Instance;
use lems_collapse::lems::file::LemsFile;
use lems_collapse::lems::raw;
use lems_collapse::lexicon::Lexicon;
use lems_collapse::variable::{SelectBy, VarKind};
use lems_collapse::xml::XmlNode;

fn xml(text: &str) -> XmlNode {
    XmlNode::parse(text).unwrap()
}

fn num(x: f64) -> Number {
    Number::from_bits(x.to_bits())
}

fn plain(x: f64) -> Quantity {
    Quantity { value: num(x), unit: None }
}

fn var(name: &str) -> Expr {
    Expr::Var(name.to_string())
}

fn readings(numbers: &[&str], normalised: &[(&str, f64)]) -> Lexicon {
    let mut lexicon = Lexicon::new();
    for n in numbers {
        lexicon.numbers.insert(n.to_string(), num(n.parse::<f64>().unwrap()));
    }
    for (text, x) in normalised {
        lexicon.normalised.insert(text.to_string(), plain(*x));
    }
    lexicon
}

fn registry(text: &str, lexicon: Lexicon) -> LemsFile {
    LemsFile::from_raw(raw::Lems::from_node(&xml(text)).unwrap(), lexicon)
}

fn keys<V>(d: &Dict<V>) -> Vec<String> {
    d.entries.iter().map(|e| e.0.clone()).collect()
}

fn kind_of<'a>(c: &'a Collapsed, name: &str) -> &'a VarKind {
    &c.variables.iter().find(|v| v.name == name).unwrap().kind
}

#[test]
fn single_parameter_is_normalised_and_collapsed() {
    let lexicon = readings(&[], &[("3 mV", 3e-3)]);
    let lems = registry(
        r#"<Lems><ComponentType name="A"><Parameter name="p" dimension="none"/></ComponentType></Lems>"#,
        lexicon,
    );
    let inst = Instance::new(&lems, &xml(r#"<A p="3 mV"/>"#)).unwrap();
    assert_eq!(inst.parameters.get("p"), Some(&plain(3e-3)));
    assert_eq!(f64::from_bits(inst.parameters.get("p").unwrap().value.bits), 3e-3);
    let coll = Collapsed::from_instance(&inst).unwrap();
    assert_eq!(coll.parameters.entries, vec![("p".to_string(), Some(plain(3e-3)))]);
}

#[test]
fn child_is_named_by_its_slot() {
    let lexicon = readings(&[], &[("2", 2.0)]);
    let lems = registry(
        r#"<Lems>
             <ComponentType name="A"><Child name="b" type="B"/></ComponentType>
             <ComponentType name="B"><Parameter name="q" dimension="none"/></ComponentType>
           </Lems>"#,
        lexicon,
    );
    let inst = Instance::new(&lems, &xml(r#"<A><b type="B" q="2"/></A>"#)).unwrap();
    let coll = Collapsed::from_instance(&inst).unwrap();
    assert_eq!(coll.parameters.entries, vec![("b_q".to_string(), Some(plain(2.0)))]);
}

#[test]
fn element_that_fits_no_slot_is_passed_over() {
    let lems = registry(
        r#"<Lems>
             <ComponentType name="A"><Child name="b" type="B"/></ComponentType>
             <ComponentType name="B"><Parameter name="q" dimension="none"/></ComponentType>
           </Lems>"#,
        Lexicon::new(),
    );
    let inst = Instance::new(&lems, &xml(r#"<A><B q="2"/></A>"#)).unwrap();
    assert!(inst.child.is_empty());
    assert!(inst.children.is_empty());
}

#[test]
fn children_are_named_by_their_ids() {
    let lems = registry(
        r#"<Lems>
             <ComponentType name="A"><Children name="gs" type="G"/></ComponentType>
             <ComponentType name="G"><Exposure name="g" dimension="none"/></ComponentType>
           </Lems>"#,
        Lexicon::new(),
    );
    let inst = Instance::new(&lems, &xml(r#"<A><G id="g0"/><G id="g1"/></A>"#)).unwrap();
    let coll = Collapsed::from_instance(&inst).unwrap();
    let ks = keys(&coll.exposures);
    assert_eq!(ks, vec!["gs_g0_g".to_string(), "gs_g1_g".to_string()]);
    assert!(ks.iter().any(|k| k.contains("g0_g")));
    assert!(ks.iter().any(|k| k.contains("g1_g")));
}

fn channel() -> LemsFile {
    registry(
        r#"<Lems>
             <ComponentType name="channel">
               <Children name="gates" type="gate"/>
               <Exposure name="fopen" dimension="none"/>
               <Dynamics>
                 <DerivedVariable name="fopen" exposure="fopen" dimension="none"
                                  select="gates[*]/fcond" reduce="multiply"/>
               </Dynamics>
             </ComponentType>
             <ComponentType name="gate">
               <Exposure name="fcond" dimension="none"/>
               <Dynamics>
                 <StateVariable name="q" dimension="none"/>
                 <DerivedVariable name="fcond" exposure="fcond" dimension="none" value="q"/>
               </Dynamics>
             </ComponentType>
           </Lems>"#,
        Lexicon::new(),
    )
}

#[test]
fn product_of_selected_exposures() {
    let lems = channel();
    let inst =
        Instance::new(&lems, &xml(r#"<channel><gate id="m"/><gate id="h"/></channel>"#)).unwrap();
    let coll = Collapsed::from_instance(&inst).unwrap();
    assert_eq!(
        kind_of(&coll, "fopen"),
        &VarKind::Derived(
            vec![],
            Some(Expr::Mul(vec![var("gates_m_fcond"), var("gates_h_fcond")]))
        )
    );
    assert_eq!(
        kind_of(&coll, "gates_m_fcond"),
        &VarKind::Derived(vec![], Some(var("gates_m_q")))
    );
}

#[test]
fn pattern_written_with_a_bare_star() {
    let a = lems_collapse::path::Match::parse("gates/*/fcond").unwrap();
    let b = lems_collapse::path::Match::parse("gates[*]/fcond").unwrap();
    assert_eq!(a, b);
}

#[test]
fn product_of_nothing_is_one_and_sum_of_nothing_is_zero() {
    let lems = channel();
    let inst = Instance::new(&lems, &xml(r#"<channel/>"#)).unwrap();
    let coll = Collapsed::from_instance(&inst).unwrap();
    assert_eq!(kind_of(&coll, "fopen"), &VarKind::Derived(vec![], Some(Expr::Num(num(1.0)))));
    assert_eq!(
        lems_collapse::collapsed::gather(SelectBy::Sum, &vec![]),
        Ok(Expr::Num(num(0.0)))
    );
}

fn scheme() -> LemsFile {
    registry(
        r#"<Lems>
             <ComponentType name="ks">
               <Children name="states" type="state"/>
               <Children name="transitions" type="transition"/>
               <Dynamics>
                 <KineticScheme name="scheme" nodes="states" stateVariable="occupancy"
                                edges="transitions" edgeSource="from" edgeTarget="to"
                                forwardRate="f" reverseRate="b"/>
               </Dynamics>
             </ComponentType>
             <ComponentType name="state">
               <Exposure name="occupancy" dimension="none"/>
               <Dynamics><StateVariable name="occupancy" exposure="occupancy" dimension="none"/></Dynamics>
             </ComponentType>
             <ComponentType name="transition">
               <Text name="from"/>
               <Text name="to"/>
               <Exposure name="f" dimension="none"/>
               <Exposure name="b" dimension="none"/>
             </ComponentType>
           </Lems>"#,
        Lexicon::new(),
    )
}

#[test]
fn kinetic_scheme_becomes_transitions() {
    let lems = scheme();
    let inst = Instance::new(
        &lems,
        &xml(
            r#"<ks>
                 <state id="C"/><state id="O"/><state id="I"/>
                 <transition id="t0" from="C" to="O"/>
                 <transition id="t1" from="O" to="I"/>
               </ks>"#,
        ),
    )
    .unwrap();
    let coll = Collapsed::from_instance(&inst).unwrap();
    let t = |a: &str, b: &str, c: &str, d: &str| {
        (a.to_string(), b.to_string(), c.to_string(), d.to_string())
    };
    assert_eq!(
        coll.transitions,
        vec![
            t("states_C_occupancy", "states_O_occupancy", "transitions_t0_f", "transitions_t0_b"),
            t("states_O_occupancy", "states_I_occupancy", "transitions_t1_f", "transitions_t1_b"),
        ]
    );
    for (s, e, _, _) in &coll.transitions {
        assert!(coll.variables.iter().any(|v| &v.name == s));
        assert!(coll.variables.iter().any(|v| &v.name == e));
    }
}

#[test]
fn edge_without_ends_is_missing_something() {
    let lems = scheme();
    let inst = Instance::new(
        &lems,
        &xml(r#"<ks><state id="C"/><transition id="t0" from="C"/></ks>"#),
    )
    .unwrap();
    assert_eq!(Collapsed::from_instance(&inst), Err(Error::MissingRequired));
}

#[test]
fn scheme_under_a_named_root_cannot_be_walked() {
    let lems = scheme();
    let inst = Instance::new(
        &lems,
        &xml(r#"<ks id="k"><state id="C"/><transition id="t0" from="C" to="C"/></ks>"#),
    )
    .unwrap();
    assert_eq!(
        Collapsed::from_instance_with_name(&inst, true),
        Err(Error::UnsupportedPattern)
    );
}

fn product() -> Collapsed {
    let lexicon = readings(&[], &[("2", 2.0)]);
    let lems = registry(
        r#"<Lems>
             <ComponentType name="A">
               <Parameter name="k" dimension="none"/>
               <Parameter name="x" dimension="none"/>
               <Dynamics><DerivedVariable name="y" dimension="none" value="k*x"/></Dynamics>
             </ComponentType>
           </Lems>"#,
        lexicon,
    );
    let inst = Instance::new(&lems, &xml(r#"<A k="2"/>"#)).unwrap();
    Collapsed::from_instance(&inst).unwrap()
}

#[test]
fn constants_are_propagated() {
    let coll = product();
    let simple = coll.simplify("+x").unwrap();
    assert_eq!(
        kind_of(&simple, "y"),
        &VarKind::Derived(vec![], Some(Expr::Mul(vec![Expr::Num(num(2.0)), var("x")])))
    );
    assert!(simple.constants.entries.is_empty());
    assert_eq!(simple.parameters.entries, vec![("x".to_string(), None)]);
}

#[test]
fn simplifying_twice_changes_nothing_more() {
    let coll = product();
    let once = coll.simplify("+x").unwrap();
    let twice = once.simplify("+x").unwrap();
    assert_eq!(once, twice);
}

#[test]
fn wider_filter_keeps_more_parameters() {
    let coll = product();
    let narrow = coll.simplify("-*").unwrap();
    let wide = coll.simplify("+*").unwrap();
    assert_eq!(keys(&narrow.parameters), vec!["x".to_string()]);
    assert_eq!(keys(&wide.parameters), vec!["k".to_string(), "x".to_string()]);
    for k in keys(&narrow.parameters) {
        assert!(keys(&wide.parameters).contains(&k));
    }
    assert_eq!(
        kind_of(&wide, "y"),
        &VarKind::Derived(vec![], Some(Expr::Mul(vec![var("k"), var("x")])))
    );
}

#[test]
fn later_token_overrules_earlier() {
    let coll = product();
    assert_eq!(keys(&coll.simplify("+k,-k").unwrap().parameters), vec!["x".to_string()]);
    assert_eq!(
        keys(&coll.simplify("-k,+k").unwrap().parameters),
        vec!["k".to_string(), "x".to_string()]
    );
    assert_eq!(
        keys(&coll.simplify("+*,-k*").unwrap().parameters),
        vec!["x".to_string()]
    );
}

#[test]
fn token_without_sign_is_a_bad_filter() {
    let coll = product();
    assert_eq!(coll.simplify("k"), Err(Error::BadFilter));
    assert_eq!(coll.simplify(""), Err(Error::BadFilter));
    assert_eq!(coll.simplify("+k,"), Err(Error::BadFilter));
}

#[test]
fn trivial_variables_are_propagated_in_rounds() {
    let lexicon = readings(&["3", "0"], &[]);
    let lems = registry(
        r#"<Lems>
             <ComponentType name="A">
               <Dynamics>
                 <DerivedVariable name="a" dimension="none" value="b"/>
                 <DerivedVariable name="b" dimension="none" value="c"/>
                 <DerivedVariable name="c" dimension="none" value="3"/>
                 <DerivedVariable name="d" dimension="none" value="a + 0"/>
               </Dynamics>
             </ComponentType>
           </Lems>"#,
        lexicon,
    );
    let inst = Instance::new(&lems, &xml(r#"<A/>"#)).unwrap();
    let simple = Collapsed::from_instance(&inst).unwrap().simplify("+none").unwrap();
    for name in ["a", "b", "c", "d"] {
        assert_eq!(kind_of(&simple, name), &VarKind::Derived(vec![], Some(Expr::Num(num(3.0)))));
    }
}

#[test]
fn no_selection_is_left_after_collapse() {
    let lems = channel();
    let inst =
        Instance::new(&lems, &xml(r#"<channel><gate id="m"/><gate id="h"/></channel>"#)).unwrap();
    let coll = Collapsed::from_instance_with_name(&inst, true).unwrap();
    assert!(coll.variables.iter().all(|v| !matches!(v.kind, VarKind::Select(_, _))));
    assert!(coll.variables.iter().any(|v| v.name == "Unknown_gates_m_q"));
}

#[test]
fn name_of_a_variable_ends_with_id_and_name() {
    let lems = channel();
    let inst = Instance::new(
        &lems,
        &xml(r#"<channel id="na"><gate id="m"/></channel>"#),
    )
    .unwrap();
    let coll = Collapsed::from_instance_with_name(&inst, true).unwrap();
    assert!(coll.variables.iter().any(|v| v.name == "na_gates_m_q" && v.name.contains("m_q")));
}

fn selecting(reduce: Option<&str>, gates: &str) -> Result<Collapsed, Error> {
    let reduce = match reduce {
        Some(r) => format!(r#"reduce="{}""#, r),
        None => String::new(),
    };
    let lexicon = Lexicon::new();
    let lems = registry(
        &format!(
            r#"<Lems>
                 <ComponentType name="channel">
                   <Children name="gates" type="gate"/>
                   <Dynamics>
                     <DerivedVariable name="g" dimension="none" select="gates[*]/fcond" {}/>
                   </Dynamics>
                 </ComponentType>
                 <ComponentType name="gate">
                   <Exposure name="fcond" dimension="none"/>
                 </ComponentType>
               </Lems>"#,
            reduce
        ),
        lexicon,
    );
    let inst = Instance::new(&lems, &xml(&format!("<channel>{}</channel>", gates)))?;
    Collapsed::from_instance(&inst)
}

#[test]
fn sum_of_selected_exposures_in_order() {
    let coll = selecting(Some("add"), r#"<gate id="z"/><gate id="a"/><gate id="m"/>"#).unwrap();
    assert_eq!(
        kind_of(&coll, "g"),
        &VarKind::Derived(
            vec![],
            Some(Expr::Add(vec![
                var("gates_z_fcond"),
                var("gates_a_fcond"),
                var("gates_m_fcond")
            ]))
        )
    );
}

#[test]
fn selection_of_one_value() {
    let coll = selecting(None, r#"<gate id="m"/>"#).unwrap();
    assert_eq!(kind_of(&coll, "g"), &VarKind::Derived(vec![], Some(var("gates_m_fcond"))));
    assert_eq!(selecting(None, "").err(), Some(Error::MissingRequired));
    assert_eq!(
        selecting(None, r#"<gate id="m"/><gate id="h"/>"#).err(),
        Some(Error::MalformedDynamics)
    );
}

#[test]
fn unknown_reduction_is_malformed() {
    let lems = registry(
        r#"<Lems>
             <ComponentType name="A">
               <Dynamics>
                 <DerivedVariable name="g" dimension="none" select="gates[*]/fcond" reduce="max"/>
               </Dynamics>
             </ComponentType>
           </Lems>"#,
        Lexicon::new(),
    );
    assert_eq!(lems.compose_component_type("A").err(), Some(Error::MalformedDynamics));
}

#[test]
fn conditions_and_states_are_renamed() {
    let lexicon = readings(&["0"], &[("1", 1.0)]);
    let minus = |e: Expr| Expr::Mul(vec![Expr::Num(num(-1.0)), e]);
    let lems = registry(
        r#"<Lems>
             <ComponentType name="cell"><Child name="leak" type="leak"/></ComponentType>
             <ComponentType name="leak">
               <Parameter name="e" dimension="voltage"/>
               <Dynamics>
                 <StateVariable name="s" dimension="none"/>
                 <TimeDerivative variable="s" value="v - e"/>
                 <OnStart><StateAssignment variable="s" value="0"/></OnStart>
                 <OnEvent port="in"><StateAssignment variable="s" value="v"/></OnEvent>
                 <ConditionalDerivedVariable name="i" dimension="none">
                   <Case condition="v .gt. e" value="v - e"/>
                   <Case value="0"/>
                 </ConditionalDerivedVariable>
               </Dynamics>
             </ComponentType>
           </Lems>"#,
        lexicon,
    );
    let inst = Instance::new(&lems, &xml(r#"<cell><leak e="1"/></cell>"#)).unwrap();
    let coll = Collapsed::from_instance(&inst).unwrap();
    assert_eq!(
        kind_of(&coll, "leak_s"),
        &VarKind::State(
            Some(Expr::Num(num(0.0))),
            Some(Expr::Add(vec![var("v"), minus(var("leak_e"))]))
        )
    );
    assert_eq!(
        kind_of(&coll, "leak_i"),
        &VarKind::Derived(
            vec![(
                Boolean::Test(Relation::Gt, var("v"), var("leak_e")),
                Expr::Add(vec![var("v"), minus(var("leak_e"))])
            )],
            Some(Expr::Num(num(0.0)))
        )
    );
    assert_eq!(coll.events, vec![("leak_s".to_string(), var("v"))]);
    let simple = coll.simplify("-*").unwrap();
    assert_eq!(
        kind_of(&simple, "leak_s"),
        &VarKind::State(
            Some(Expr::Num(num(0.0))),
            Some(Expr::Add(vec![var("v"), Expr::Num(num(-1.0))]))
        )
    );
}

#[test]
fn symbols_of_the_flat_form_are_flat() {
    let lems = channel();
    let inst = Instance::new(
        &lems,
        &xml(r#"<channel id="na"><gate id="m"/><gate id="h"/></channel>"#),
    )
    .unwrap();
    let coll = Collapsed::from_instance_with_name(&inst, true).unwrap();
    let flat = |s: &str| !s.contains('/') && !s.contains('[') && !s.contains(']');
    fn refs(e: &Expr, out: &mut Vec<String>) {
        match e {
            Expr::Num(_) => {}
            Expr::Var(n) => out.push(n.clone()),
            Expr::Add(xs) | Expr::Mul(xs) | Expr::Pow(xs) | Expr::Fun(_, xs) => {
                for x in xs {
                    refs(x, out)
                }
            }
        }
    }
    assert!(keys(&coll.exposures).iter().all(|k| flat(k)));
    assert!(keys(&coll.parameters).iter().all(|k| flat(k)));
    assert!(keys(&coll.constants).iter().all(|k| flat(k)));
    assert!(coll.events.iter().all(|e| flat(&e.0)));
    let mut seen = Vec::new();
    for v in &coll.variables {
        assert!(flat(&v.name));
        if let VarKind::Derived(_, Some(e)) = &v.kind {
            refs(e, &mut seen);
        }
    }
    assert_eq!(seen, vec!["na_gates_m_fcond", "na_gates_h_fcond", "na_gates_m_q", "na_gates_h_q"]);
    assert!(seen.iter().all(|n| flat(n)));
}

#[test]
fn scheme_below_the_root_becomes_transitions() {
    let lems = registry(
        r#"<Lems>
             <ComponentType name="cell"><Children name="chans" type="ks"/></ComponentType>
             <ComponentType name="ks">
               <Children name="states" type="state"/>
               <Children name="transitions" type="transition"/>
               <Dynamics>
                 <KineticScheme name="scheme" nodes="states" stateVariable="occupancy"
                                edges="transitions" edgeSource="from" edgeTarget="to"
                                forwardRate="f" reverseRate="b"/>
               </Dynamics>
             </ComponentType>
             <ComponentType name="state">
               <Dynamics><StateVariable name="occupancy" dimension="none"/></Dynamics>
             </ComponentType>
             <ComponentType name="transition">
               <Text name="from"/>
               <Text name="to"/>
             </ComponentType>
           </Lems>"#,
        Lexicon::new(),
    );
    let inst = Instance::new(
        &lems,
        &xml(
            r#"<cell>
                 <ks id="na">
                   <state id="C"/><state id="O"/>
                   <transition id="t" from="C" to="O"/>
                 </ks>
               </cell>"#,
        ),
    )
    .unwrap();
    let coll = Collapsed::from_instance(&inst).unwrap();
    assert_eq!(
        coll.transitions,
        vec![(
            "chans_na_states_C_occupancy".to_string(),
            "chans_na_states_O_occupancy".to_string(),
            "chans_na_transitions_t_f".to_string(),
            "chans_na_transitions_t_b".to_string()
        )]
    );
    assert!(coll.variables.iter().any(|v| v.name == "chans_na_states_C_occupancy"));
    assert!(coll.variables.iter().any(|v| v.name == "chans_na_states_O_occupancy"));
    assert_eq!(coll.kinetic[0].name, "chans_na_scheme");
}

#[test]
fn copies_are_equal() {
    let lems = channel();
    let node = xml(r#"<channel id="na"><gate id="m"/><gate id="h"/></channel>"#);
    assert_eq!(node.clone(), node);
    let inst = Instance::new(&lems, &node).unwrap();
    assert_eq!(inst.clone(), inst);
    assert_eq!(inst.dup().component_type, lems.compose_component_type("channel").unwrap());
    let coll = Collapsed::from_instance(&inst).unwrap();
    assert_eq!(coll.clone(), coll);
    assert_eq!(coll.variables[0].clone(), coll.variables[0]);
}
