use clumpiverse::mass::{matter_radius, Mass};
use clumpiverse::renderer::{
    center_color, clear_action, connection_color, focus_color, frame_plan, grab_color,
    hover_color, matter_color, show_centers, trail_color, CanvasClear,
};
use clumpiverse::{Clumpiverse, NO_MASS};

fn hair(n: usize) -> Clumpiverse {
    let mut c = Clumpiverse::new(0, 0, 1, 4, 0, 3, 0);
    for _ in 0..n {
        c.add_mass(1);
    }
    c
}

#[test]
fn new_clumpiverse_is_empty() {
    let c = Clumpiverse::new(1, 0, 2, 4, 2, 5, 1);
    assert_eq!(c.mass_count(), 0);
    assert_eq!(c.focused_mass(), NO_MASS);
    assert!(!c.grabbing());
    assert!(c.grab_ids().is_empty());
    assert_eq!(c.guide(), 1);
    assert_eq!(c.theme(), 2);
    assert_eq!(c.tpgy(), 5);
    assert_eq!(c.trail(), 1);
    assert_eq!(c.matter_size(0), 0);
    assert_eq!(c.matter_size(1), 2);
    assert_eq!(c.matter_size(2), 4);
    assert_eq!(c.matter_size(7), 2);
}

#[test]
fn grab_focuses_latest_and_ungrab_releases() {
    let mut c = hair(5);
    assert_eq!(c.focused_mass(), 4);
    assert!(!c.grab_masses(&vec![]));
    assert_eq!(c.focused_mass(), 4);
    assert!(c.grab_masses(&vec![1, 2]));
    assert!(c.grabbing());
    assert_eq!(c.grab_ids(), &vec![1, 2]);
    assert_eq!(c.focused_mass(), 2);
    assert!(c.is_grabbed(1));
    assert!(c.is_grabbed(2));
    assert!(!c.is_grabbed(0));
    assert!(c.grab_masses(&vec![0]));
    assert_eq!(c.grab_ids(), &vec![1, 2, 0]);
    assert_eq!(c.focused_mass(), 0);
    let released = c.ungrab_masses();
    assert_eq!(released, vec![1, 2, 0]);
    assert!(!c.grabbing());
    assert!(c.grab_ids().is_empty());
    assert!(!c.is_grabbed(1));
    assert_eq!(c.focused_mass(), 0);
    assert_eq!(c.mass_count(), 5);
}

#[test]
fn grab_keeps_connections() {
    let mut c = hair(3);
    let before: Vec<Vec<usize>> = c.masses().iter().map(|m| m.connections.clone()).collect();
    c.grab_masses(&vec![2]);
    c.ungrab_masses();
    let after: Vec<Vec<usize>> = c.masses().iter().map(|m| m.connections.clone()).collect();
    assert_eq!(before, after);
}

#[test]
fn hair_continues_from_a_grabbed_mass() {
    let mut c = hair(3);
    c.grab_masses(&vec![0]);
    c.ungrab_masses();
    assert_eq!(c.add_mass(1), 3);
    assert_eq!(c.masses()[3].connections, vec![0]);
    assert_eq!(c.masses()[0].connections, vec![1, 3]);
}

#[test]
fn sizes_and_radii() {
    let mut c = Clumpiverse::new(0, 0, 1, 4, 0, 1, 0);
    assert_eq!(c.matter_radius(0), 24);
    assert_eq!(c.matter_radius(1), 40);
    assert_eq!(c.matter_radius(2), 120);
    assert_eq!(c.matter_radius(9), 40);
    c.set_size(0, 3);
    c.set_size(1, 2);
    c.set_size(2, 9);
    c.set_size(3, 0);
    assert_eq!(c.matter_size(0), 3);
    assert_eq!(c.matter_size(1), 2);
    assert_eq!(c.matter_size(2), 9);
    assert_eq!(c.matter_radius(0), 80);
    assert_eq!(c.matter_radius(1), 56);
    assert_eq!(c.matter_radius(2), 80);
    assert_eq!(c.matter_radius(3), 56);
}

#[test]
fn panel_settings() {
    let mut c = hair(2);
    c.set_guide(2);
    c.set_theme(1);
    c.set_trail(2);
    c.set_tpgy(7);
    assert_eq!(c.guide(), 2);
    assert_eq!(c.theme(), 1);
    assert_eq!(c.trail(), 2);
    assert_eq!(c.tpgy(), 7);
    assert_eq!(c.mass_count(), 2);
    assert_eq!(c.focused_mass(), 1);
}

#[test]
fn radius_by_matter() {
    assert_eq!(matter_radius(0, 1, 2, 3), 1);
    assert_eq!(matter_radius(1, 1, 2, 3), 2);
    assert_eq!(matter_radius(2, 1, 2, 3), 3);
    assert_eq!(matter_radius(3, 1, 2, 3), 2);
}

#[test]
fn connected_masses() {
    let m = Mass { id: 4, matter: 1, connections: vec![3, 7, 1] };
    assert!(m.is_connected_to(7));
    assert!(m.is_connected_to(1));
    assert!(!m.is_connected_to(4));
    let lone = Mass { id: 0, matter: 0, connections: vec![] };
    assert!(!lone.is_connected_to(0));
}

#[test]
fn colours() {
    assert_eq!(trail_color(0), "#29133705");
    assert_eq!(trail_color(1), "#00000005");
    assert_eq!(trail_color(2), "#ffffff05");
    assert_eq!(trail_color(3), "");
    assert_eq!(matter_color(0), "#87028780");
    assert_eq!(matter_color(1), "#8a063580");
    assert_eq!(matter_color(2), "#015e9080");
    assert_eq!(matter_color(3), "");
    assert_eq!(center_color(0), "#fff");
    assert_eq!(center_color(2), "#000");
    assert_eq!(grab_color(1), "#fff3");
    assert_eq!(grab_color(2), "#0003");
    assert_eq!(hover_color(0), "#fff1");
    assert_eq!(hover_color(2), "#0001");
    assert_eq!(focus_color(1), "#fff8");
    assert_eq!(focus_color(2), "#0008");
    assert_eq!(focus_color(5), "");
    assert_eq!(connection_color(0), Some("#fff6"));
    assert_eq!(connection_color(2), Some("#0003"));
    assert_eq!(connection_color(3), None);
}

#[test]
fn canvas_clearing() {
    assert!(matches!(clear_action(0, 1), CanvasClear::Clear));
    assert!(matches!(clear_action(1, 0), CanvasClear::Fill("#29133705")));
    assert!(matches!(clear_action(1, 2), CanvasClear::Fill("#ffffff05")));
    assert!(matches!(clear_action(2, 0), CanvasClear::Keep));
    assert!(matches!(clear_action(7, 0), CanvasClear::Keep));
    assert!(show_centers(0));
    assert!(show_centers(1));
    assert!(!show_centers(2));
}

#[test]
fn frame_layers() {
    let mut c = hair(3);
    let p = frame_plan(&c);
    assert!(matches!(p.clear, CanvasClear::Clear));
    assert!(p.centers);
    assert!(!p.grabbed);
    assert_eq!(p.focused, Some(2));
    assert!(p.connections);
    c.set_guide(2);
    c.set_trail(1);
    c.grab_masses(&vec![1]);
    let p = frame_plan(&c);
    assert!(matches!(p.clear, CanvasClear::Fill("#29133705")));
    assert!(!p.centers);
    assert!(p.grabbed);
    assert_eq!(p.focused, Some(1));
    assert!(!p.connections);
    c.set_tpgy(1);
    c.add_mass(0);
    let p = frame_plan(&c);
    assert_eq!(p.focused, None);
}
