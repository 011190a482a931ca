use model_rig::kinds::{DriverNodeKind, DriverSpace, PortType};
use model_rig::node_body::{
    draw_driver_node_body, driver_spawn_menu, menu_label, preview_line, spawn_menu, BodyItem,
    PreviewForm, SpawnGroup, SpawnItem,
};

fn every_kind() -> [DriverNodeKind; 23] {
    [
        DriverNodeKind::BoneGet,
        DriverNodeKind::BoneSet,
        DriverNodeKind::MorphSet,
        DriverNodeKind::Float,
        DriverNodeKind::Vec3,
        DriverNodeKind::QuatEuler,
        DriverNodeKind::QuatToEuler,
        DriverNodeKind::Remap,
        DriverNodeKind::MapRange,
        DriverNodeKind::Clamp,
        DriverNodeKind::Add,
        DriverNodeKind::Mul,
        DriverNodeKind::CombineVec3,
        DriverNodeKind::SplitVec3,
        DriverNodeKind::Vec3Add,
        DriverNodeKind::Vec3Scale,
        DriverNodeKind::Vec3Length,
        DriverNodeKind::Vec3Normalize,
        DriverNodeKind::QuatMul,
        DriverNodeKind::QuatRotateVec,
        DriverNodeKind::QuatInvert,
        DriverNodeKind::QuatScale,
        DriverNodeKind::QuatAngle,
    ]
}

#[test]
fn slugs_name_their_kind() {
    for k in every_kind() {
        assert_eq!(DriverNodeKind::from_name(k.slug()), Some(k));
    }
}

#[test]
fn titles_name_their_kind() {
    for k in every_kind() {
        assert_eq!(DriverNodeKind::from_name(k.title()), Some(k), "{}", k.title());
    }
}

#[test]
fn kind_names_are_read_loosely() {
    assert_eq!(DriverNodeKind::from_name("  Get   Bone "), Some(DriverNodeKind::BoneGet));
    assert_eq!(DriverNodeKind::from_name("bone-set"), Some(DriverNodeKind::BoneSet));
    assert_eq!(DriverNodeKind::from_name("BONE__SET"), Some(DriverNodeKind::BoneSet));
    assert_eq!(DriverNodeKind::from_name("bone"), None);
    assert_eq!(DriverNodeKind::from_name(""), None);
}

#[test]
fn spaces_by_index_and_name() {
    for (i, s) in DriverSpace::all().into_iter().enumerate() {
        assert_eq!(s.index(), i);
        assert_eq!(DriverSpace::from_name(s.slug()), Some(s));
    }
    assert_eq!(DriverSpace::from_name(" Bind_Offset "), Some(DriverSpace::BindOffset));
    assert_eq!(DriverSpace::from_name("WORLD"), Some(DriverSpace::World));
    assert_eq!(DriverSpace::from_name("bind offset"), None);
    assert_eq!(DriverSpace::BindOffset.slug(), "offset");
}

#[test]
fn bone_reader_ports_are_typed() {
    assert_eq!(DriverNodeKind::BoneGet.output_port_type("pos"), PortType::Vec3);
    assert_eq!(DriverNodeKind::BoneGet.output_port_type("rot"), PortType::Quat);
    assert_eq!(DriverNodeKind::BoneGet.output_port_type("scale"), PortType::Vec3);
    assert_eq!(DriverNodeKind::Float.output_port_type("value"), PortType::Float);
}

#[test]
fn every_kind_can_be_spawned() {
    let mut seen: Vec<DriverNodeKind> = Vec::new();
    for page in 0..5u8 {
        for item in spawn_menu(page) {
            if let SpawnItem::Spawn(k) = item {
                seen.push(k);
            }
        }
    }
    for k in every_kind() {
        assert!(seen.contains(&k), "{}", menu_label(k));
    }
}

#[test]
fn spawn_menu_leads_in_and_back() {
    let g = SpawnGroup::Vector;
    let (page, none) = driver_spawn_menu(0, SpawnItem::Submenu(g));
    assert_eq!(page, g.page());
    assert!(none.is_none());
    assert!(spawn_menu(page).iter().any(|i| matches!(i, SpawnItem::Back)));
    assert_eq!(driver_spawn_menu(page, SpawnItem::Back).0, 0);
    let (after, kind) = driver_spawn_menu(page, SpawnItem::Spawn(DriverNodeKind::Vec3Add));
    assert_eq!(after, 0);
    assert_eq!(kind, Some(DriverNodeKind::Vec3Add));
}

#[test]
fn node_bodies_use_typed_ports() {
    for k in every_kind() {
        for item in draw_driver_node_body(k) {
            if let BodyItem::Output(p, ty) = item {
                assert_eq!(k.output_port_type(p.text()), ty, "{}", k.slug());
            }
        }
    }
}

#[test]
fn previews_are_shown_by_form() {
    assert!(preview_line(PreviewForm::Plain, "").is_none());
    assert_eq!(preview_line(PreviewForm::Plain, "1.5"), Some("1.5".to_string()));
    assert_eq!(preview_line(PreviewForm::Equals, "1.5"), Some("= 1.5".to_string()));
}

#[test]
fn spelling_of_kinds_does_not_matter() {
    for s in ["Map Range", "MAP_RANGE", "  map--range\t", "map - _range"] {
        assert!(DriverNodeKind::from_name(s) == Some(DriverNodeKind::MapRange));
    }
    assert!(DriverNodeKind::from_name("-map range").is_none());
}
