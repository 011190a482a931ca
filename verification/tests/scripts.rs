use model_rig::bones::BoneId;
use model_rig::driver::{Driver, NodeSpace};
use model_rig::geom::{Scalar, Vec2};
use model_rig::kinds::DriverNodeKind;
use model_rig::rig::{AppMode, RigDocument};
use model_rig::scene::NodeHandle;
use model_rig::script::{glob_match, lua_ident, lua_str, node_opts};
use model_rig::script_driver::driver_to_lua;
use model_rig::script_rig::{
    apply_node_floats, option_names, parse_script_arg, read_params, script_cell, NodeOpts, NodeParams,
    ScriptArgs, SoftParams,
};

fn f(x: f32) -> Scalar {
    Scalar { bits: x.to_bits() }
}

fn at(x: f32, y: f32) -> Vec2 {
    Vec2 { x: f(x), y: f(y) }
}

fn space() -> NodeSpace {
    NodeSpace {
        pan: at(0.0, 0.0),
        links: Vec::new(),
        next_link_id: 1,
        selected_nodes: Vec::new(),
        selected_link: None,
    }
}

fn show(x: Scalar) -> String {
    format!("{}", f32::from_bits(x.bits))
}

fn params() -> NodeParams {
    NodeParams {
        value: None,
        t: None,
        from: None,
        to: None,
        in_from: None,
        in_to: None,
        out_from: None,
        out_to: None,
        min: None,
        max: None,
        x: None,
        y: None,
        z: None,
        shape: None,
        floats: [None; 4],
    }
}

#[test]
fn globs_match_stars_and_question_marks() {
    assert!(glob_match("*", ""));
    assert!(glob_match("*", "Spine.001"));
    assert!(glob_match("Arm*.L", "Arm_upper.L"));
    assert!(!glob_match("Arm*.L", "Arm_upper.R"));
    assert!(glob_match("Bone?", "Bone1"));
    assert!(!glob_match("Bone?", "Bone"));
    assert!(glob_match("Hand", "Hand"));
    assert!(!glob_match("Hand", "hand"));
    assert!(!glob_match("", "x"));
}

#[test]
fn question_mark_stands_for_one_byte() {
    assert!(!glob_match("?", "\u{e9}"));
    assert!(glob_match("??", "\u{e9}"));
    assert!(glob_match("*", "\u{e9}"));
}

#[test]
fn strings_are_quoted_for_lua() {
    assert_eq!(lua_str("plain"), "\"plain\"");
    assert_eq!(lua_str("a\"b\\c\nd\re"), "\"a\\\"b\\\\c\\nd\\re\"");
}

#[test]
fn identifiers_are_made_valid() {
    assert_eq!(lua_ident("node_1"), "node_1");
    assert_eq!(lua_ident("_x"), "_x");
    assert_eq!(lua_ident("1st"), "_1st");
    assert_eq!(lua_ident("a-b.c"), "a_b_c");
    assert_eq!(lua_ident(""), "_");
    assert_eq!(lua_ident("\u{e9}t\u{e9}"), "_t_");
}

#[test]
fn script_arguments() {
    let args = |v: &[&str]| v.iter().map(|s| s.to_string()).collect::<Vec<String>>();
    assert!(matches!(parse_script_arg(&args(&[])), Ok(ScriptArgs::Run(None))));
    match parse_script_arg(&args(&["--script", "a"])) {
        Ok(ScriptArgs::Run(Some(p))) => assert_eq!(p, "a"),
        _ => panic!("no script"),
    }
    match parse_script_arg(&args(&["a.lua", "b.lua"])) {
        Ok(ScriptArgs::Run(Some(p))) => assert_eq!(p, "b.lua"),
        _ => panic!("no script"),
    }
    assert!(matches!(parse_script_arg(&args(&["-h", "junk"])), Ok(ScriptArgs::Help)));
    assert_eq!(parse_script_arg(&args(&["-s"])).err(), Some("--script needs a path".to_string()));
    assert_eq!(
        parse_script_arg(&args(&["-x"])).err(),
        Some("unknown argument '-x' (try --help)".to_string())
    );
    assert_eq!(
        parse_script_arg(&args(&["x"])).err(),
        Some("unexpected argument 'x' (try --help)".to_string())
    );
}

#[test]
fn node_cells_run_in_rows_of_four() {
    assert_eq!(script_cell(0), (0, 0));
    assert_eq!(script_cell(3), (3, 0));
    assert_eq!(script_cell(4), (0, 1));
    assert_eq!(script_cell(10), (2, 2));
}

#[test]
fn options_of_a_node_as_lua() {
    let mut d = Driver::new(1, "D".to_string(), space());
    let id = d.spawn_node(DriverNodeKind::MapRange, at(10.0, 2.5));
    let i = d.find(&id).unwrap();
    d.nodes[i].floats = [f(0.0), f(90.0), f(0.0), f(1.0)];
    assert_eq!(
        node_opts(&d.nodes[i], None, &show),
        "{ pos = {10, 2.5}, in_from = 0, in_to = 90, out_from = 0, out_to = 1 }"
    );
    let j = d.spawn_node(DriverNodeKind::BoneGet, at(0.0, 0.0));
    let j = d.find(&j).unwrap();
    assert_eq!(
        node_opts(&d.nodes[j], Some("Arm \"L\""), &show),
        "{ pos = {0, 0}, bone = \"Arm \\\"L\\\"\", space = \"offset\" }"
    );
    let k = d.spawn_node(DriverNodeKind::MorphSet, at(0.0, 0.0));
    let k = d.find(&k).unwrap();
    d.nodes[k].shape = 7;
    assert_eq!(node_opts(&d.nodes[k], None, &show), "{ pos = {0, 0}, shape = 7 }");
}

#[test]
fn driver_is_written_as_lua() {
    let mut d = Driver::new(1, "Elbow".to_string(), space());
    d.enabled = false;
    let a = d.spawn_node(DriverNodeKind::BoneGet, at(0.0, 0.0));
    let b = d.spawn_node(DriverNodeKind::MorphSet, at(0.0, 0.0));
    let bone = BoneId { node: NodeHandle { index: 4, generation: 0 } };
    let i = d.find(&a).unwrap();
    d.nodes[i].bone = Some(bone);
    d.connect(&a, "pos", &b, "in").unwrap();
    let text = driver_to_lua(&d, &vec![(bone, "Arm".to_string())], &show);
    let expected = format!(
        "local d = rig.create_driver(\"Elbow\")\nd:enable(false)\n\
         local {a} = d:add(\"bone_get\", {{ pos = {{0, 0}}, bone = \"Arm\", space = \"offset\" }})\n\
         -- morph_set: bind the mesh in the node editor if needed\n\
         local {b} = d:add(\"morph_set\", {{ pos = {{0, 0}}, shape = 0 }})\n\
         d:link({a}, \"pos\", {b}, \"in\")\n"
    );
    assert_eq!(text, expected);
}

#[test]
fn clashing_node_names_are_told_apart() {
    let mut d = Driver::new(1, "D".to_string(), space());
    d.spawn_node(DriverNodeKind::Float, at(0.0, 0.0));
    d.spawn_node(DriverNodeKind::Float, at(0.0, 0.0));
    d.nodes[0].id = "a-b".to_string();
    d.nodes[1].id = "a.b".to_string();
    let text = driver_to_lua(&d, &Vec::new(), &show);
    assert!(text.contains("local a_b = "));
    assert!(text.contains("local a_b_1 = "));
}

#[test]
fn parameters_go_to_their_places() {
    let mut d = Driver::new(1, "D".to_string(), space());
    let id = d.spawn_node(DriverNodeKind::MapRange, at(0.0, 0.0));
    let i = d.find(&id).unwrap();
    let mut p = params();
    p.out_to = Some(f(4.0));
    p.in_from = Some(f(1.0));
    apply_node_floats(&mut d.nodes[i], &p);
    assert_eq!(d.nodes[i].floats[3], f(4.0));
    assert_eq!(d.nodes[i].floats[0], f(1.0));
}

#[test]
fn modes_by_name() {
    assert!(AppMode::from_name("pose") == Some(AppMode::Pose));
    assert!(AppMode::from_name("edit") == Some(AppMode::Edit));
    assert!(AppMode::from_name("dance").is_none());
}

#[test]
fn drivers_made_by_scripts() {
    let mut rig = RigDocument::default();
    let (a, _) = rig.script_create_driver(space(), None);
    let (b, _) = rig.script_create_driver(space(), Some("Elbow".to_string()));
    assert_ne!(a, b);
    assert_eq!(rig.drivers[0].name, format!("Driver_{}", a));
    assert_eq!(rig.drivers[1].name, "Elbow");
    assert_eq!(rig.find_driver(b), Some(1));
    rig.remove_driver(a);
    assert_eq!(rig.find_driver(b), Some(0));
    assert_eq!(rig.find_driver(a), None);
    assert_eq!(rig.script_summary("x.lua"), "Script x.lua · 0 bones · 1 drivers · 0 IK");
}

#[test]
fn node_options_are_checked() {
    let mut rig = RigDocument::default();
    let id = rig.create_driver(space());
    let node = rig.driver_mut(id).unwrap().spawn_node(DriverNodeKind::Float, at(0.0, 0.0));
    let opts = NodeOpts { bone: None, space: Some("moon".to_string()), params: params() };
    assert_eq!(
        rig.apply_node_opts(id, &node, &opts).err(),
        Some("unknown space 'moon' (local|world|offset)".to_string())
    );
    let opts = NodeOpts { bone: Some("Arm".to_string()), space: None, params: params() };
    assert!(rig.apply_node_opts(id, &node, &opts).is_err());
    let mut p = params();
    p.value = Some(f(2.0));
    let opts = NodeOpts { bone: None, space: Some("world".to_string()), params: p };
    assert!(rig.apply_node_opts(id, &node, &opts).is_ok());
    assert_eq!(rig.drivers[0].nodes[0].floats[0], f(2.0));
    assert!(rig.apply_node_opts(id, "nobody", &opts).is_err());
}

#[test]
fn unknown_soft_chain_cannot_be_tuned() {
    let mut rig = RigDocument::default();
    let p = SoftParams {
        gravity: None,
        stiffness: None,
        damping: None,
        inertia: None,
        max_angle: None,
    };
    assert_eq!(rig.tune_soft(9, &p).err(), Some("unknown soft chain 9".to_string()));
}

#[test]
fn script_names_are_distinct() {
    let mut d = Driver::new(1, "D".to_string(), space());
    for id in ["a-b", "a_b_2", "a.b", "d", "end", "a b"] {
        let made = d.spawn_node(DriverNodeKind::Clamp, at(0.0, 0.0));
        let i = d.find(&made).unwrap();
        d.nodes[i].id = id.to_string();
    }
    d.connect("a.b", "out", "a-b", "in").unwrap();
    let lua = driver_to_lua(&d, &Vec::new(), &show);
    let names: Vec<&str> = lua
        .lines()
        .filter(|l| l.contains("d:add"))
        .map(|l| l.split_whitespace().nth(1).unwrap())
        .collect();
    assert_eq!(names, vec!["a_b", "a_b_2", "a_b_3", "d_3", "end_4", "a_b_5"]);
    assert!(lua.contains("d:link(a_b_3, \"out\", a_b, \"in\")"));
}

#[test]
fn patterns_join() {
    assert!(glob_match("a*", "abc") && glob_match("?\u{e9}", "x\u{e9}"));
    assert!(glob_match("a*?\u{e9}", "abcx\u{e9}"));
    assert!(glob_match("a*?\u{e9}", "a*?\u{e9}"));
    assert!(!glob_match("\u{aa}", "\u{2a}"));
}

#[test]
fn options_are_read_under_their_names() {
    let names = option_names();
    assert_eq!(names.len(), 13);
    let get = |k: &'static str| match k {
        "in_from" => Some(f(1.0)),
        "in_to" => Some(f(2.0)),
        "out_from" => Some(f(3.0)),
        "out_to" => Some(f(4.0)),
        _ => None,
    };
    let p = read_params(&get, Some(7), [None; 4]);
    assert_eq!(p.in_to, Some(f(2.0)));
    assert_eq!(p.value, None);
    let mut d = Driver::new(1, "D".to_string(), space());
    d.spawn_node(DriverNodeKind::MapRange, at(0.0, 0.0));
    apply_node_floats(&mut d.nodes[0], &p);
    assert_eq!(d.nodes[0].floats, [f(1.0), f(2.0), f(3.0), f(4.0)]);
    assert_eq!(d.nodes[0].shape, 7);
    let text = node_opts(&d.nodes[0], None, &show);
    assert_eq!(text, "{ pos = {0, 0}, in_from = 1, in_to = 2, out_from = 3, out_to = 4 }");
}
