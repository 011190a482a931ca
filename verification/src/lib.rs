//! Rig documents: a bone hierarchy over a scene, the chains and drivers set up
//! on it, and the decisions of the editor around it.

pub mod geom;
pub mod order;
pub mod ranking;
pub mod view_gizmo;
pub mod cpu_profile;
pub mod cpu_report;
pub mod cpu_stats;
pub mod scene;
pub mod bones;
pub mod forest_edit;
pub mod text;
pub mod lists;
pub mod kinds;
pub mod driver;
pub mod rig;
pub mod rig_select;
pub mod rig_edit;
pub mod rig_paths;
pub mod rig_chains;
pub mod rig_pose;
pub mod rig_load;
pub mod rig_relink;
pub mod graph;
pub mod evaluate;
pub mod script;
pub mod script_driver;
pub mod script_rig;
pub mod mesh_faces;
pub mod pull;
pub mod weights;
pub mod gizmo;
pub mod skeleton;
pub mod sculpt;
pub mod soft_sim;
pub mod session;
pub mod tools;
pub mod toolbar;
pub mod node_body;
pub mod node_edit;
pub mod shapes_panel;
pub mod bone_list;
pub mod drivers_panel;
pub mod bone_tree;
pub mod bones_panel;
pub mod inspector;
pub mod frame;
pub mod rig_app;

pub mod bone_laws;
pub mod chain_laws;
pub mod drive_laws;
pub mod driver_laws;
pub mod figure_laws;
pub mod flow_laws;
pub mod graph_laws;
pub mod handle_laws;
pub mod input_laws;
pub mod kind_laws;
pub mod label_laws;
pub mod name_laws;
pub mod node_laws;
pub mod number_laws;
pub mod overlay_laws;
pub mod panel_laws;
pub mod pose_laws;
pub mod press_laws;
pub mod pull_laws;
pub mod rig_edit_laws;
pub mod scene_laws;
pub mod script_laws;
pub mod sculpt_laws;
pub mod soft_laws;
pub mod tools_laws;
pub mod tree_laws;
pub mod value_laws;
