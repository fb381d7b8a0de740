use clumpiverse::{Clumpiverse, NO_MASS};

/// Builds twelve Masses under topology `tpgy`, cycling matter 0, 1, 2, 3.
fn build(tpgy: u8) -> (Clumpiverse, Vec<usize>) {
    let mut c = Clumpiverse::new(0, 3, 3, 3, 0, tpgy, 0);
    let mut ids = Vec::new();
    for i in 0..12u8 {
        ids.push(c.add_mass(i % 4));
    }
    (c, ids)
}

fn connections(c: &Clumpiverse) -> Vec<Vec<usize>> {
    c.masses().iter().map(|m| m.connections.clone()).collect()
}

fn assert_mutual(c: &Clumpiverse) {
    let conns = connections(c);
    for i in 0..conns.len() {
        assert!(!conns[i].contains(&i));
        for j in 0..conns.len() {
            let ij = conns[i].iter().filter(|&&x| x == j).count();
            let ji = conns[j].iter().filter(|&&x| x == i).count();
            assert_eq!(ij, ji, "masses {} and {}", i, j);
        }
    }
}

#[test]
fn topology_none_adds_nothing() {
    let (c, ids) = build(0);
    assert_eq!(ids, vec![NO_MASS; 12]);
    assert_eq!(c.mass_count(), 0);
    assert_eq!(c.focused_mass(), NO_MASS);
    assert!(c.masses_antigrav().is_empty());
}

#[test]
fn topology_mono_connections() {
    let (c, ids) = build(1);
    assert_eq!(ids, (0..12).collect::<Vec<usize>>());
    assert_eq!(c.focused_mass(), NO_MASS);
    assert_eq!(connections(&c), vec![vec![], vec![], vec![], vec![], vec![], vec![], vec![], vec![], vec![], vec![], vec![], vec![]]);
    assert_eq!(c.masses_antigrav(), &vec![0, 4, 8]);
    assert_eq!(c.masses_elastic(), &vec![1, 5, 9]);
    assert_eq!(c.masses_gas(), &vec![2, 6, 10]);
    assert_mutual(&c);
}

#[test]
fn topology_pair_connections() {
    let (c, ids) = build(2);
    assert_eq!(ids, (0..12).collect::<Vec<usize>>());
    assert_eq!(c.focused_mass(), NO_MASS);
    assert_eq!(connections(&c), vec![vec![1], vec![0], vec![3], vec![2], vec![5], vec![4], vec![7], vec![6], vec![9], vec![8], vec![11], vec![10]]);
    assert_eq!(c.masses_antigrav(), &vec![0, 4, 8]);
    assert_eq!(c.masses_elastic(), &vec![1, 5, 9]);
    assert_eq!(c.masses_gas(), &vec![2, 6, 10]);
    assert_mutual(&c);
}

#[test]
fn topology_hair_connections() {
    let (c, ids) = build(3);
    assert_eq!(ids, (0..12).collect::<Vec<usize>>());
    assert_eq!(c.focused_mass(), 11);
    assert_eq!(connections(&c), vec![vec![1], vec![0, 2], vec![1, 3], vec![2, 4], vec![3, 5], vec![4, 6], vec![5, 7], vec![6, 8], vec![7, 9], vec![8, 10], vec![9, 11], vec![10]]);
    assert_eq!(c.masses_antigrav(), &vec![0, 4, 8]);
    assert_eq!(c.masses_elastic(), &vec![1, 5, 9]);
    assert_eq!(c.masses_gas(), &vec![2, 6, 10]);
    assert_mutual(&c);
}

#[test]
fn topology_strut_connections() {
    let (c, ids) = build(4);
    assert_eq!(ids, (0..12).collect::<Vec<usize>>());
    assert_eq!(c.focused_mass(), 11);
    assert_eq!(connections(&c), vec![vec![1, 2], vec![0, 2, 3], vec![0, 1, 3, 4], vec![1, 2, 4, 5], vec![2, 3, 5, 6], vec![3, 4, 6, 7], vec![4, 5, 7, 8], vec![5, 6, 8, 9], vec![6, 7, 9, 10], vec![7, 8, 10, 11], vec![8, 9, 11], vec![9, 10]]);
    assert_eq!(c.masses_antigrav(), &vec![0, 4, 8]);
    assert_eq!(c.masses_elastic(), &vec![1, 5, 9]);
    assert_eq!(c.masses_gas(), &vec![2, 6, 10]);
    assert_mutual(&c);
}

#[test]
fn topology_girder_connections() {
    let (c, ids) = build(5);
    assert_eq!(ids, (0..12).collect::<Vec<usize>>());
    assert_eq!(c.focused_mass(), 11);
    assert_eq!(connections(&c), vec![vec![1, 2, 3], vec![0, 2, 3], vec![0, 1, 3, 4, 5], vec![0, 1, 2, 4, 5], vec![2, 3, 5, 6, 7], vec![2, 3, 4, 6, 7], vec![4, 5, 7, 8, 9], vec![4, 5, 6, 8, 9], vec![6, 7, 9, 10, 11], vec![6, 7, 8, 10, 11], vec![8, 9, 11], vec![8, 9, 10]]);
    assert_eq!(c.masses_antigrav(), &vec![0, 4, 8]);
    assert_eq!(c.masses_elastic(), &vec![1, 5, 9]);
    assert_eq!(c.masses_gas(), &vec![2, 6, 10]);
    assert_mutual(&c);
}

#[test]
fn topology_pyramid_connections() {
    let (c, ids) = build(6);
    assert_eq!(ids, (0..12).collect::<Vec<usize>>());
    assert_eq!(c.focused_mass(), 0);
    assert_eq!(connections(&c), vec![vec![1, 2], vec![0, 2, 4, 5], vec![1, 0, 3, 4], vec![2, 4, 8, 9], vec![3, 2, 1, 5, 7, 8], vec![4, 1, 6, 7], vec![5, 7], vec![6, 5, 4, 8], vec![7, 4, 3, 9, 11], vec![8, 3, 10, 11], vec![9, 11], vec![10, 9, 8]]);
    assert_eq!(c.masses_antigrav(), &vec![0, 4, 8]);
    assert_eq!(c.masses_elastic(), &vec![1, 5, 9]);
    assert_eq!(c.masses_gas(), &vec![2, 6, 10]);
    assert_mutual(&c);
}

#[test]
fn topology_plank_connections() {
    let (c, ids) = build(7);
    assert_eq!(ids, (0..12).collect::<Vec<usize>>());
    assert_eq!(c.focused_mass(), 0);
    assert_eq!(connections(&c), vec![vec![1, 3, 5, 7], vec![0, 2, 8, 10], vec![1, 3, 11], vec![2, 0, 4], vec![3, 5], vec![4, 0, 6], vec![5, 7], vec![6, 0, 8], vec![7, 1, 9], vec![8, 10], vec![9, 1, 11], vec![10, 2]]);
    assert_eq!(c.masses_antigrav(), &vec![0, 4, 8]);
    assert_eq!(c.masses_elastic(), &vec![1, 5, 9]);
    assert_eq!(c.masses_gas(), &vec![2, 6, 10]);
    assert_mutual(&c);
}

#[test]
fn topology_brick_connections() {
    let (c, ids) = build(8);
    assert_eq!(ids, (0..12).collect::<Vec<usize>>());
    assert_eq!(c.focused_mass(), 0);
    assert_eq!(connections(&c), vec![vec![1, 1, 2, 3, 4, 5, 6, 7, 8], vec![0, 0, 2, 3, 7, 8, 9, 10, 11], vec![1, 0, 3, 10, 11], vec![2, 0, 1, 4, 5], vec![3, 0, 5], vec![4, 0, 3, 6, 7], vec![5, 0, 7], vec![6, 0, 5, 1, 8], vec![7, 1, 0, 9, 10], vec![8, 1, 10], vec![9, 1, 8, 2, 11], vec![10, 2, 1]]);
    assert_eq!(c.masses_antigrav(), &vec![0, 4, 8]);
    assert_eq!(c.masses_elastic(), &vec![1, 5, 9]);
    assert_eq!(c.masses_gas(), &vec![2, 6, 10]);
    assert_mutual(&c);
}

#[test]
fn topology_unknown_code_connections() {
    let (c, ids) = build(9);
    assert_eq!(ids, (0..12).collect::<Vec<usize>>());
    assert_eq!(c.focused_mass(), NO_MASS);
    assert_eq!(connections(&c), vec![vec![], vec![], vec![], vec![], vec![], vec![], vec![], vec![], vec![], vec![], vec![], vec![]]);
    assert_eq!(c.masses_antigrav(), &vec![0, 4, 8]);
    assert_eq!(c.masses_elastic(), &vec![1, 5, 9]);
    assert_eq!(c.masses_gas(), &vec![2, 6, 10]);
    assert_mutual(&c);
}


#[test]
fn topology_pyramid_forty_five_masses() {
    let mut c = Clumpiverse::new(0, 3, 3, 3, 0, 6, 0);
    for _ in 0..45 {
        c.add_mass(1);
    }
    assert_eq!(c.focused_mass(), 0);
    assert_eq!(connections(&c), vec![vec![1, 2], vec![0, 2, 4, 5], vec![1, 0, 3, 4], vec![2, 4, 8, 9], vec![3, 2, 1, 5, 7, 8], vec![4, 1, 6, 7], vec![5, 7, 13, 14], vec![6, 5, 4, 8, 12, 13], vec![7, 4, 3, 9, 11, 12], vec![8, 3, 10, 11], vec![9, 11, 19, 20], vec![10, 9, 8, 12, 18, 19], vec![11, 8, 7, 13, 17, 18], vec![12, 7, 6, 14, 16, 17], vec![13, 6, 15, 16], vec![14, 16, 26, 27], vec![15, 14, 13, 17, 25, 26], vec![16, 13, 12, 18, 24, 25], vec![17, 12, 11, 19, 23, 24], vec![18, 11, 10, 20, 22, 23], vec![19, 10, 21, 22], vec![20, 22, 34, 35], vec![21, 20, 19, 23, 33, 34], vec![22, 19, 18, 24, 32, 33], vec![23, 18, 17, 25, 31, 32], vec![24, 17, 16, 26, 30, 31], vec![25, 16, 15, 27, 29, 30], vec![26, 15, 28, 29], vec![27, 29, 43, 44], vec![28, 27, 26, 30, 42, 43], vec![29, 26, 25, 31, 41, 42], vec![30, 25, 24, 32, 40, 41], vec![31, 24, 23, 33, 39, 40], vec![32, 23, 22, 34, 38, 39], vec![33, 22, 21, 35, 37, 38], vec![34, 21, 36, 37], vec![35, 37], vec![36, 35, 34, 38], vec![37, 34, 33, 39], vec![38, 33, 32, 40], vec![39, 32, 31, 41], vec![40, 31, 30, 42], vec![41, 30, 29, 43], vec![42, 29, 28, 44], vec![43, 28]]);
    assert_mutual(&c);
}

#[test]
fn topology_plank_forty_five_masses() {
    let mut c = Clumpiverse::new(0, 3, 3, 3, 0, 7, 0);
    for _ in 0..45 {
        c.add_mass(1);
    }
    assert_eq!(c.focused_mass(), 0);
    assert_eq!(connections(&c), vec![vec![1, 3, 5, 7], vec![0, 2, 8, 10], vec![1, 3, 11, 13], vec![2, 0, 4, 14], vec![3, 5, 15, 17], vec![4, 0, 6, 18], vec![5, 7, 19, 21], vec![6, 0, 8, 22], vec![7, 1, 9, 23], vec![8, 10, 24, 26], vec![9, 1, 11, 27], vec![10, 2, 12, 28], vec![11, 13, 29, 31], vec![12, 2, 14, 32], vec![13, 3, 15, 33], vec![14, 4, 16, 34], vec![15, 17, 35, 37], vec![16, 4, 18, 38], vec![17, 5, 19, 39], vec![18, 6, 20, 40], vec![19, 21, 41, 43], vec![20, 6, 22, 44], vec![21, 7, 23], vec![22, 8, 24], vec![23, 9, 25], vec![24, 26], vec![25, 9, 27], vec![26, 10, 28], vec![27, 11, 29], vec![28, 12, 30], vec![29, 31], vec![30, 12, 32], vec![31, 13, 33], vec![32, 14, 34], vec![33, 15, 35], vec![34, 16, 36], vec![35, 37], vec![36, 16, 38], vec![37, 17, 39], vec![38, 18, 40], vec![39, 19, 41], vec![40, 20, 42], vec![41, 43], vec![42, 20, 44], vec![43, 21]]);
    assert_mutual(&c);
}

#[test]
fn topology_brick_forty_five_masses() {
    let mut c = Clumpiverse::new(0, 3, 3, 3, 0, 8, 0);
    for _ in 0..45 {
        c.add_mass(1);
    }
    assert_eq!(c.focused_mass(), 0);
    assert_eq!(connections(&c), vec![vec![1, 1, 2, 3, 4, 5, 6, 7, 8], vec![0, 0, 2, 3, 7, 8, 9, 10, 11], vec![1, 0, 3, 10, 11, 12, 13, 14], vec![2, 0, 1, 4, 5, 13, 14, 15], vec![3, 0, 5, 14, 15, 16, 17, 18], vec![4, 0, 3, 6, 7, 17, 18, 19], vec![5, 0, 7, 18, 19, 20, 21, 22], vec![6, 0, 5, 1, 8, 21, 22, 23], vec![7, 1, 0, 9, 10, 22, 23, 24], vec![8, 1, 10, 23, 24, 25, 26, 27], vec![9, 1, 8, 2, 11, 26, 27, 28], vec![10, 2, 1, 12, 13, 27, 28, 29], vec![11, 2, 13, 28, 29, 30, 31, 32], vec![12, 2, 11, 3, 14, 31, 32, 33], vec![13, 3, 2, 4, 15, 32, 33, 34], vec![14, 4, 3, 16, 17, 33, 34, 35], vec![15, 4, 17, 34, 35, 36, 37, 38], vec![16, 4, 15, 5, 18, 37, 38, 39], vec![17, 5, 4, 6, 19, 38, 39, 40], vec![18, 6, 5, 20, 21, 39, 40, 41], vec![19, 6, 21, 40, 41, 42, 43, 44], vec![20, 6, 19, 7, 22, 43, 44], vec![21, 7, 6, 8, 23, 44], vec![22, 8, 7, 9, 24], vec![23, 9, 8, 25, 26], vec![24, 9, 26], vec![25, 9, 24, 10, 27], vec![26, 10, 9, 11, 28], vec![27, 11, 10, 12, 29], vec![28, 12, 11, 30, 31], vec![29, 12, 31], vec![30, 12, 29, 13, 32], vec![31, 13, 12, 14, 33], vec![32, 14, 13, 15, 34], vec![33, 15, 14, 16, 35], vec![34, 16, 15, 36, 37], vec![35, 16, 37], vec![36, 16, 35, 17, 38], vec![37, 17, 16, 18, 39], vec![38, 18, 17, 19, 40], vec![39, 19, 18, 20, 41], vec![40, 20, 19, 42, 43], vec![41, 20, 43], vec![42, 20, 41, 21, 44], vec![43, 21, 20, 22]]);
    assert_mutual(&c);
}

#[test]
fn every_topology_keeps_connections_mutual_over_many_masses() {
    for tpgy in 0..=9u8 {
        let mut c = Clumpiverse::new(0, 3, 3, 3, 0, tpgy, 0);
        for i in 0..300usize {
            c.add_mass((i % 3) as u8);
        }
        assert_mutual(&c);
    }
}

#[test]
fn switching_topology_mid_build() {
    let mut c = Clumpiverse::new(0, 3, 3, 3, 0, 3, 0);
    c.add_mass(1);
    c.add_mass(1);
    assert_eq!(c.focused_mass(), 1);
    c.set_tpgy(1);
    assert_eq!(c.add_mass(1), 2);
    assert_eq!(c.focused_mass(), NO_MASS);
    c.set_tpgy(0);
    assert_eq!(c.add_mass(1), NO_MASS);
    assert_eq!(c.mass_count(), 3);
    c.set_tpgy(2);
    c.add_mass(0);
    assert_eq!(c.focused_mass(), 3);
    c.add_mass(0);
    assert_eq!(c.focused_mass(), NO_MASS);
    assert_eq!(connections(&c)[4], vec![3]);
    assert_eq!(c.masses_antigrav(), &vec![3, 4]);
}

#[test]
fn masses_know_their_ids_and_matter() {
    let (c, _) = build(4);
    for (i, m) in c.masses().iter().enumerate() {
        assert_eq!(m.id, i);
        assert_eq!(m.matter, (i % 4) as u8);
    }
}

#[test]
fn brick_jutters_join_their_own_anchor() {
    let mut c = Clumpiverse::new(0, 3, 3, 3, 0, 1, 0);
    assert_eq!(c.add_mass(1), 0);
    c.set_tpgy(8);
    for id in 1..=4usize {
        assert_eq!(c.add_mass(1), id);
    }
    assert_eq!(c.focused_mass(), 1);
    assert_eq!(c.add_mass(1), 5);
    assert_eq!(c.masses()[5].connections, vec![4, 1]);
    assert_eq!(c.focused_mass(), 1);
    // The anchor's own jutters: steps 1 and 4.
    assert_eq!(c.masses()[2].connections[..2], [1, 1]);
    assert!(c.masses()[0].connections.is_empty());
    assert_mutual(&c);
}
