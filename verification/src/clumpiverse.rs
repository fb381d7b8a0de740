//! The Clumpiverse's lattice: every Mass with its matter and connections,
//! the focused Mass that the next topology step builds on, the Masses being
//! grabbed, and the panel settings.

use vstd::prelude::*;

use crate::mass::{by_matter, matter_radius, Mass};
use crate::numbers::{size_radius, size_to_radius};
use crate::topology::{
    all_below, all_within, brick_is_translation_invariant, plank_is_translation_invariant,
    pyramid_is_translation_invariant, shift, brick_extra, brick_extra_links, lemma_brick_extra_below, lemma_plank_extra_below,
    lemma_pyramid_extra_below, plank_extra, plank_extra_links, pyramid_extra, pyramid_extra_links,
};

verus! {

/// The focus that means "no Mass": also what `add_mass` returns when the
/// topology adds nothing.
pub const NO_MASS: usize = usize::MAX;

/// How many times `x` occurs in `s`.
pub open spec fn count(s: Seq<usize>, x: usize) -> nat
    decreases s.len(),
{
    if s.len() == 0 {
        0
    } else {
        count(s.drop_last(), x) + if s.last() == x {
            1nat
        } else {
            0nat
        }
    }
}

/// The ids, in creation order, of the Masses whose matter is `matter`.
pub open spec fn ids_of_matter(matters: Seq<u8>, matter: u8) -> Seq<usize>
    decreases matters.len(),
{
    if matters.len() == 0 {
        seq![]
    } else {
        let rest = ids_of_matter(matters.drop_last(), matter);
        if matters.last() == matter {
            rest.push((matters.len() - 1) as usize)
        } else {
            rest
        }
    }
}

/// The Clumpiverse's lattice as plain values.
pub struct ClumpState {
    /// The focused Mass, or `NO_MASS`.
    pub focused: usize,
    /// Whether a grab is in progress.
    pub grabbing: bool,
    /// The Masses grabbed so far, in the order they were grabbed.
    pub grab_ids: Seq<usize>,
    /// The connections of each Mass, indexed by id.
    pub links: Seq<Seq<usize>>,
    /// The matter of each Mass, indexed by id.
    pub matters: Seq<u8>,
    /// The ids of the antigrav Masses.
    pub antigrav: Seq<usize>,
    /// The ids of the elastic Masses.
    pub elastic: Seq<usize>,
    /// The ids of the gas Masses.
    pub gas: Seq<usize>,
    /// The size setting of antigrav matter.
    pub antigrav_size: u8,
    /// The size setting of elastic matter.
    pub elastic_size: u8,
    /// The size setting of gas matter.
    pub gas_size: u8,
    /// The guide setting: 0 all, 1 centers, 2 none.
    pub guide: u8,
    /// The colour theme: 0 purple, 1 black, 2 white.
    pub theme: u8,
    /// The topology that new Masses are built into.
    pub tpgy: u8,
    /// The trail setting: 0 none, 1 fade, 2 full.
    pub trail: u8,
}

impl ClumpState {
    /// The number of Masses; also the id the next Mass gets.
    pub open spec fn len(self) -> int {
        self.links.len() as int
    }

    /// A well-formed lattice: every connection, the focus and every grabbed
    /// id name an existing Mass; no Mass is connected to itself; every
    /// connection is mutual, as often one way as the other; and the matter
    /// lists hold exactly the ids of their matter, oldest first.
    pub open spec fn wf(self) -> bool {
        &&& self.matters.len() == self.links.len()
        &&& self.focused == NO_MASS || self.focused < self.len()
        &&& forall|i: int, t: int|
            0 <= i < self.len() && 0 <= t < self.links[i].len() ==> #[trigger] self.links[i][t]
                < self.len() && self.links[i][t] != i
        &&& forall|i: usize, j: usize|
            i < self.len() && j < self.len() ==> #[trigger] count(self.links[i as int], j) == count(
                self.links[j as int],
                i,
            )
        &&& forall|t: int| 0 <= t < self.grab_ids.len() ==> #[trigger] self.grab_ids[t] < self.len()
        &&& self.antigrav == ids_of_matter(self.matters, 0)
        &&& self.elastic == ids_of_matter(self.matters, 1)
        &&& self.gas == ids_of_matter(self.matters, 2)
    }
}

/// The connections a new Mass gets under the current topology, in the order
/// they are made. Pair joins the focused Mass when there is one. Hair joins
/// the focused Mass. Strut joins the focused Mass's newest connection, then
/// the focused Mass. Girder does the same, and an odd id first also joins
/// the second-newest connection of that newest connection. Pyramid, plank
/// and brick join the Mass created just before, then their extras.
pub open spec fn new_links(s: ClumpState) -> Seq<usize> {
    let id = s.len();
    let f = s.focused;
    if s.tpgy == 2 || s.tpgy == 3 {
        if f == NO_MASS {
            seq![]
        } else {
            seq![f]
        }
    } else if s.tpgy == 4 || s.tpgy == 5 {
        if f == NO_MASS {
            seq![]
        } else {
            let c0 = s.links[f as int];
            let older: Seq<usize> = if c0.len() == 0 {
                seq![]
            } else {
                let m1 = c0.last();
                let c1 = s.links[m1 as int];
                let oldest: Seq<usize> = if s.tpgy == 5 && id % 2 == 1 && c1.len() > 1 {
                    seq![c1[c1.len() - 2]]
                } else {
                    seq![]
                };
                oldest.push(m1)
            };
            older.push(f)
        }
    } else if 6 <= s.tpgy <= 8 {
        if f == NO_MASS {
            seq![]
        } else {
            let d = id - f;
            let extra = if s.tpgy == 6 {
                pyramid_extra(id, d)
            } else if s.tpgy == 7 {
                plank_extra(id, d)
            } else {
                brick_extra(id, d, f as int)
            };
            seq![(id - 1) as usize] + extra
        }
    } else {
        seq![]
    }
}

/// The focus after a new Mass: mono focuses nothing; pair focuses the new
/// Mass when nothing was focused and nothing otherwise; hair, strut and
/// girder focus the new Mass; pyramid, plank and brick keep their anchor
/// once there is one; other codes keep the focus.
pub open spec fn new_focus(s: ClumpState) -> usize {
    let id = s.len() as usize;
    if s.tpgy == 1 {
        NO_MASS
    } else if s.tpgy == 2 {
        if s.focused == NO_MASS {
            id
        } else {
            NO_MASS
        }
    } else if 3 <= s.tpgy <= 5 {
        id
    } else if 6 <= s.tpgy <= 8 {
        if s.focused == NO_MASS {
            id
        } else {
            s.focused
        }
    } else {
        s.focused
    }
}

/// `n` copies of `id`.
pub open spec fn repeat(n: nat, id: usize) -> Seq<usize> {
    Seq::new(n, |t: int| id)
}

/// Each Mass's connections, after every Mass listed in `l` has been
/// connected back to `id` once per time it is listed.
pub open spec fn linked_back(links: Seq<Seq<usize>>, l: Seq<usize>, id: usize) -> Seq<Seq<usize>> {
    Seq::new(links.len(), |j: int| links[j] + repeat(count(l, j as usize), id))
}

/// The lattice after a Mass of matter `matter` is added under a topology
/// other than none.
pub open spec fn after_add(s: ClumpState, matter: u8) -> ClumpState {
    let id = s.len() as usize;
    let l = new_links(s);
    ClumpState {
        focused: new_focus(s),
        links: linked_back(s.links, l, id).push(l),
        matters: s.matters.push(matter),
        antigrav: if matter == 0 {
            s.antigrav.push(id)
        } else {
            s.antigrav
        },
        elastic: if matter == 1 {
            s.elastic.push(id)
        } else {
            s.elastic
        },
        gas: if matter == 2 {
            s.gas.push(id)
        } else {
            s.gas
        },
        ..s
    }
}

/// The lattice after the Masses `hits` are grabbed: they join the grabbed
/// Masses in order, a grab is in progress if one was or anything was hit,
/// and the focus moves to the most recently grabbed Mass, if there is one.
pub open spec fn after_grab(s: ClumpState, hits: Seq<usize>) -> ClumpState {
    let grab_ids = s.grab_ids + hits;
    ClumpState {
        grabbing: s.grabbing || hits.len() > 0,
        grab_ids,
        focused: if grab_ids.len() > 0 {
            grab_ids.last()
        } else {
            s.focused
        },
        ..s
    }
}

/// The lattice after every grabbed Mass is released.
pub open spec fn after_ungrab(s: ClumpState) -> ClumpState {
    ClumpState { grabbing: false, grab_ids: seq![], ..s }
}

/// The Clumpiverse's lattice and settings.
pub struct Clumpiverse {
    focused_mass: usize,
    grabbing: bool,
    grab_ids: Vec<usize>,
    guide: u8,
    masses: Vec<Mass>,
    masses_antigrav: Vec<usize>,
    masses_elastic: Vec<usize>,
    masses_gas: Vec<usize>,
    matter_antigrav_size: u8,
    matter_elastic_size: u8,
    matter_gas_size: u8,
    next_id: usize,
    theme: u8,
    tpgy: u8,
    trail: u8,
}

impl View for Clumpiverse {
    type V = ClumpState;

    closed spec fn view(&self) -> ClumpState {
        ClumpState {
            focused: self.focused_mass,
            grabbing: self.grabbing,
            grab_ids: self.grab_ids@,
            links: self.masses@.map_values(|m: Mass| m.connections@),
            matters: self.masses@.map_values(|m: Mass| m.matter),
            antigrav: self.masses_antigrav@,
            elastic: self.masses_elastic@,
            gas: self.masses_gas@,
            antigrav_size: self.matter_antigrav_size,
            elastic_size: self.matter_elastic_size,
            gas_size: self.matter_gas_size,
            guide: self.guide,
            theme: self.theme,
            tpgy: self.tpgy,
            trail: self.trail,
        }
    }
}

impl Clumpiverse {
    /// Well-formed: the lattice is well-formed, each Mass's id is its index,
    /// and the next id is the number of Masses.
    pub closed spec fn wf(&self) -> bool {
        &&& self@.wf()
        &&& self.next_id == self.masses.len()
        &&& forall|i: int| 0 <= i < self.masses.len() ==> (#[trigger] self.masses@[i]).id == i
    }

    /// A well-formed Clumpiverse has a well-formed lattice.
    pub proof fn lemma_wf_view(&self)
        requires
            self.wf(),
        ensures
            self@.wf(),
    {
    }

    /// An empty Clumpiverse with the given panel settings, focused on
    /// nothing, grabbing nothing.
    pub fn new(
        guide: u8,
        matter_antigrav_size: u8,
        matter_elastic_size: u8,
        matter_gas_size: u8,
        theme: u8,
        tpgy: u8,
        trail: u8,
    ) -> (c: Clumpiverse)
        ensures
            c.wf(),
            c@ == (ClumpState {
                focused: NO_MASS,
                grabbing: false,
                grab_ids: seq![],
                links: seq![],
                matters: seq![],
                antigrav: seq![],
                elastic: seq![],
                gas: seq![],
                antigrav_size: matter_antigrav_size,
                elastic_size: matter_elastic_size,
                gas_size: matter_gas_size,
                guide,
                theme,
                tpgy,
                trail,
            }),
    {
        let c = Clumpiverse {
            focused_mass: NO_MASS,
            grabbing: false,
            grab_ids: Vec::new(),
            guide,
            masses: Vec::new(),
            masses_antigrav: Vec::new(),
            masses_elastic: Vec::new(),
            masses_gas: Vec::new(),
            matter_antigrav_size,
            matter_elastic_size,
            matter_gas_size,
            next_id: 0,
            theme,
            tpgy,
            trail,
        };
        assert(c@.links =~= seq![]);
        assert(c@.matters =~= seq![]);
        c
    }
}


impl Clumpiverse {
    /// The focused Mass, or `NO_MASS`.
    pub fn focused_mass(&self) -> (f: usize)
        ensures
            f == self@.focused,
    {
        self.focused_mass
    }

    /// Whether a grab is in progress.
    pub fn grabbing(&self) -> (g: bool)
        ensures
            g == self@.grabbing,
    {
        self.grabbing
    }

    /// The Masses grabbed so far.
    pub fn grab_ids(&self) -> (g: &Vec<usize>)
        ensures
            g@ == self@.grab_ids,
    {
        &self.grab_ids
    }

    /// All the Masses, indexed by id.
    pub fn masses(&self) -> (m: &Vec<Mass>)
        requires
            self.wf(),
        ensures
            m@.len() == self@.len(),
            forall|i: int|
                0 <= i < m@.len() ==> (#[trigger] m@[i]).connections@ == self@.links[i]
                    && m@[i].matter == self@.matters[i] && m@[i].id == i,
    {
        &self.masses
    }

    /// The number of Masses.
    pub fn mass_count(&self) -> (n: usize)
        ensures
            n == self@.len(),
    {
        self.masses.len()
    }

    /// The ids of the antigrav Masses.
    pub fn masses_antigrav(&self) -> (v: &Vec<usize>)
        ensures
            v@ == self@.antigrav,
    {
        &self.masses_antigrav
    }

    /// The ids of the elastic Masses.
    pub fn masses_elastic(&self) -> (v: &Vec<usize>)
        ensures
            v@ == self@.elastic,
    {
        &self.masses_elastic
    }

    /// The ids of the gas Masses.
    pub fn masses_gas(&self) -> (v: &Vec<usize>)
        ensures
            v@ == self@.gas,
    {
        &self.masses_gas
    }

    /// The guide setting.
    pub fn guide(&self) -> (g: u8)
        ensures
            g == self@.guide,
    {
        self.guide
    }

    /// The colour theme.
    pub fn theme(&self) -> (t: u8)
        ensures
            t == self@.theme,
    {
        self.theme
    }

    /// The topology setting.
    pub fn tpgy(&self) -> (t: u8)
        ensures
            t == self@.tpgy,
    {
        self.tpgy
    }

    /// The trail setting.
    pub fn trail(&self) -> (t: u8)
        ensures
            t == self@.trail,
    {
        self.trail
    }

    /// The size setting of matter `matter`: antigrav for 0, elastic for 1,
    /// gas for 2, and elastic for any other code.
    pub fn matter_size(&self, matter: u8) -> (size: u8)
        ensures
            size == by_matter(
                matter,
                self@.antigrav_size as int,
                self@.elastic_size as int,
                self@.gas_size as int,
            ),
    {
        match matter {
            0 => self.matter_antigrav_size,
            1 => self.matter_elastic_size,
            2 => self.matter_gas_size,
            _ => self.matter_elastic_size,
        }
    }

    /// The radius in pixels of a Mass of matter `matter`, from the size
    /// setting of that matter.
    pub fn matter_radius(&self, matter: u8) -> (r: u32)
        ensures
            r == by_matter(
                matter,
                size_radius(self@.antigrav_size),
                size_radius(self@.elastic_size),
                size_radius(self@.gas_size),
            ),
    {
        let antigrav = size_to_radius(self.matter_antigrav_size);
        let elastic = size_to_radius(self.matter_elastic_size);
        let gas = size_to_radius(self.matter_gas_size);
        matter_radius(matter, antigrav, elastic, gas)
    }

    /// Selects the topology that new Masses are built into.
    pub fn set_tpgy(&mut self, tpgy: u8)
        requires
            old(self).wf(),
        ensures
            final(self).wf(),
            final(self)@ == (ClumpState { tpgy, ..old(self)@ }),
    {
        self.tpgy = tpgy;
    }

    /// Selects which guides are drawn.
    pub fn set_guide(&mut self, guide: u8)
        requires
            old(self).wf(),
        ensures
            final(self).wf(),
            final(self)@ == (ClumpState { guide, ..old(self)@ }),
    {
        self.guide = guide;
    }

    /// Selects the size of matter `matter` (0 antigrav, 1 elastic, 2 gas);
    /// any other matter code changes nothing.
    pub fn set_size(&mut self, matter: u8, size: u8)
        requires
            old(self).wf(),
        ensures
            final(self).wf(),
            final(self)@ == (if matter == 0 {
                ClumpState { antigrav_size: size, ..old(self)@ }
            } else if matter == 1 {
                ClumpState { elastic_size: size, ..old(self)@ }
            } else if matter == 2 {
                ClumpState { gas_size: size, ..old(self)@ }
            } else {
                old(self)@
            }),
    {
        match matter {
            0 => self.matter_antigrav_size = size,
            1 => self.matter_elastic_size = size,
            2 => self.matter_gas_size = size,
            _ => (),
        }
    }

    /// Selects the colour theme.
    pub fn set_theme(&mut self, theme: u8)
        requires
            old(self).wf(),
        ensures
            final(self).wf(),
            final(self)@ == (ClumpState { theme, ..old(self)@ }),
    {
        self.theme = theme;
    }

    /// Selects the trail setting.
    pub fn set_trail(&mut self, trail: u8)
        requires
            old(self).wf(),
        ensures
            final(self).wf(),
            final(self)@ == (ClumpState { trail, ..old(self)@ }),
    {
        self.trail = trail;
    }

    /// Grabs the Masses `hit_ids` (those under the pointer), in order: a
    /// grab is then in progress if it was or if anything was hit, and the
    /// focus moves to the most recently grabbed Mass, if there is one.
    /// Returns whether a grab is in progress.
    pub fn grab_masses(&mut self, hit_ids: &Vec<usize>) -> (grabbing: bool)
        requires
            old(self).wf(),
            forall|t: int| 0 <= t < hit_ids@.len() ==> #[trigger] hit_ids@[t] < old(self)@.len(),
        ensures
            final(self).wf(),
            grabbing == final(self)@.grabbing,
            final(self)@ == after_grab(old(self)@, hit_ids@),
    {
        let mut i: usize = 0;
        while i < hit_ids.len()
            invariant
                i <= hit_ids.len(),
                self.wf(),
                forall|t: int| 0 <= t < hit_ids@.len() ==> #[trigger] hit_ids@[t] < old(self)@.len(),
                self@ == (ClumpState {
                    grabbing: old(self)@.grabbing || i > 0,
                    grab_ids: old(self)@.grab_ids + hit_ids@.take(i as int),
                    ..old(self)@
                }),
                self.masses == old(self).masses,
                self.next_id == old(self).next_id,
                forall|t: int| 0 <= t < self.grab_ids@.len() ==> #[trigger] self.grab_ids@[t] < old(self)@.len(),
            decreases hit_ids.len() - i,
        {
            self.grabbing = true;
            self.grab_ids.push(hit_ids[i]);
            assert(self@.len() == old(self)@.len());
            assert(hit_ids@.take(i + 1) =~= hit_ids@.take(i as int).push(hit_ids@[i as int]));
            i = i + 1;
        }
        assert(hit_ids@.take(i as int) =~= hit_ids@);
        let len = self.grab_ids.len();
        if len != 0 {
            self.focused_mass = self.grab_ids[len - 1];
        }
        self.grabbing
    }

    /// Releases every grabbed Mass: no grab is in progress afterwards and
    /// nothing is grabbed. Returns the Masses that were grabbed, in order.
    pub fn ungrab_masses(&mut self) -> (released: Vec<usize>)
        requires
            old(self).wf(),
        ensures
            final(self).wf(),
            released@ == old(self)@.grab_ids,
            final(self)@ == after_ungrab(old(self)@),
    {
        let mut released: Vec<usize> = Vec::new();
        std::mem::swap(&mut released, &mut self.grab_ids);
        self.grabbing = false;
        assert(self@.grab_ids =~= seq![]);
        released
    }

    /// Whether Mass `i` is being held by a grab in progress.
    pub fn is_grabbed(&self, i: usize) -> (held: bool)
        ensures
            held == (self@.grabbing && self@.grab_ids.contains(i)),
    {
        if !self.grabbing {
            return false;
        }
        let mut t: usize = 0;
        while t < self.grab_ids.len()
            invariant
                t <= self.grab_ids.len(),
                forall|u: int| 0 <= u < t ==> self.grab_ids@[u] != i,
                self.grabbing,
            decreases self.grab_ids.len() - t,
        {
            if self.grab_ids[t] == i {
                assert(self.grab_ids@[t as int] == i);
                return true;
            }
            t = t + 1;
        }
        false
    }
}


/// Counting after one more element.
pub proof fn lemma_count_push(s: Seq<usize>, y: usize, x: usize)
    ensures
        count(s.push(y), x) == count(s, x) + if y == x {
            1nat
        } else {
            0nat
        },
{
    assert(s.push(y).drop_last() =~= s);
}

/// A value that `s` does not hold occurs in it zero times.
pub proof fn lemma_count_absent(s: Seq<usize>, x: usize)
    requires
        forall|t: int| 0 <= t < s.len() ==> #[trigger] s[t] != x,
    ensures
        count(s, x) == 0,
    decreases s.len(),
{
    if s.len() > 0 {
        lemma_count_absent(s.drop_last(), x);
    }
}

/// Counting in `s` followed by `n` copies of `id`.
pub proof fn lemma_count_repeat(s: Seq<usize>, n: nat, id: usize, x: usize)
    ensures
        count(s + repeat(n, id), x) == count(s, x) + if x == id {
            n
        } else {
            0nat
        },
    decreases n,
{
    if n == 0 {
        assert(s + repeat(0, id) =~= s);
    } else {
        lemma_count_repeat(s, (n - 1) as nat, id, x);
        assert(s + repeat(n, id) =~= (s + repeat((n - 1) as nat, id)).push(id));
        lemma_count_push(s + repeat((n - 1) as nat, id), id, x);
    }
}

/// The matter lists after one more Mass.
proof fn lemma_ids_of_matter_push(matters: Seq<u8>, m: u8, k: u8)
    ensures
        ids_of_matter(matters.push(m), k) == if m == k {
            ids_of_matter(matters, k).push(matters.len() as usize)
        } else {
            ids_of_matter(matters, k)
        },
{
    assert(matters.push(m).drop_last() =~= matters);
}

/// Adding a Mass whose connections name older Masses keeps the lattice
/// well-formed.
proof fn lemma_after_add_wf(s: ClumpState, matter: u8)
    requires
        s.wf(),
        all_below(new_links(s), s.len()),
        new_focus(s) == NO_MASS || new_focus(s) <= s.len(),
        s.len() < usize::MAX,
    ensures
        after_add(s, matter).wf(),
{
    let a = after_add(s, matter);
    let id = s.len() as usize;
    let l = new_links(s);
    let n = s.len();
    assert(a.len() == n + 1);
    assert forall|i: int| 0 <= i < n implies #[trigger] a.links[i] == s.links[i] + repeat(
        count(l, i as usize),
        id,
    ) by {}
    assert(a.links[n] == l);
    assert forall|i: int, t: int|
        0 <= i < a.len() && 0 <= t < a.links[i].len() implies #[trigger] a.links[i][t] < a.len()
        && a.links[i][t] != i by {
        if i < n {
            if t < s.links[i].len() {
                assert(a.links[i][t] == s.links[i][t]);
            } else {
                assert(a.links[i][t] == id);
            }
        }
    }
    assert forall|i: usize, j: usize| i < a.len() && j < a.len() implies #[trigger] count(
        a.links[i as int],
        j,
    ) == count(a.links[j as int], i) by {
        if i < n {
            lemma_count_repeat(s.links[i as int], count(l, i), id, j);
        }
        if j < n {
            lemma_count_repeat(s.links[j as int], count(l, j), id, i);
        }
        if i < n && j == n {
            assert forall|t: int| 0 <= t < s.links[i as int].len() implies #[trigger] s.links[i as int][t] != id by {
                assert(s.links[i as int][t] < n);
            }
            lemma_count_absent(s.links[i as int], id);
        }
        if j < n && i == n {
            assert forall|t: int| 0 <= t < s.links[j as int].len() implies #[trigger] s.links[j as int][t] != id by {
                assert(s.links[j as int][t] < n);
            }
            lemma_count_absent(s.links[j as int], id);
        }
    }
    lemma_ids_of_matter_push(s.matters, matter, 0);
    lemma_ids_of_matter_push(s.matters, matter, 1);
    lemma_ids_of_matter_push(s.matters, matter, 2);
}

/// Connects every Mass listed in `l` back to the new Mass `id`, once per
/// time it is listed.
fn link_back(masses: &mut Vec<Mass>, l: &Vec<usize>, id: usize)
    requires
        all_below(l@, old(masses)@.len() as int),
    ensures
        final(masses)@.len() == old(masses)@.len(),
        forall|j: usize|
            j < final(masses)@.len() ==> (#[trigger] final(masses)@[j as int]).connections@ == old(
                masses,
            )@[j as int].connections@ + repeat(count(l@, j), id) && final(masses)@[j as int].id
                == old(masses)@[j as int].id && final(masses)@[j as int].matter == old(
                masses,
            )@[j as int].matter,
{
    let mut t: usize = 0;
    while t < l.len()
        invariant
            t <= l.len(),
            all_below(l@, old(masses)@.len() as int),
            masses@.len() == old(masses)@.len(),
            forall|j: usize|
                j < masses@.len() ==> (#[trigger] masses@[j as int]).connections@ == old(
                    masses,
                )@[j as int].connections@ + repeat(count(l@.take(t as int), j), id)
                    && masses@[j as int].id == old(masses)@[j as int].id && masses@[j as int].matter
                    == old(masses)@[j as int].matter,
        decreases l.len() - t,
    {
        let k = l[t];
        assert(k < masses@.len());
        let ghost before = masses@;
        masses[k].connections.push(id);
        assert(l@.take(t + 1) =~= l@.take(t as int).push(k));
        assert forall|j: usize| j < masses@.len() implies (#[trigger] masses@[j as int]).connections@
            == old(masses)@[j as int].connections@ + repeat(count(l@.take(t + 1), j), id) by {
            lemma_count_push(l@.take(t as int), k, j);
            let c = count(l@.take(t as int), j);
            if j == k {
                assert(repeat(c + 1, id) =~= repeat(c, id).push(id));
                assert(masses@[j as int].connections@ =~= before[j as int].connections@.push(id));
            } else {
                assert(masses@[j as int] == before[j as int]);
            }
        }
        t = t + 1;
    }
    assert(l@.take(t as int) =~= l@);
}

impl Clumpiverse {
    /// The connections a new Mass with id `id` gets under the current
    /// topology.
    fn links_for_new_mass(&self, id: usize) -> (l: Vec<usize>)
        requires
            self.wf(),
            id == self@.len(),
            self@.len() < usize::MAX / 16,
        ensures
            l@ == new_links(self@),
            all_below(l@, id as int),
    {
        let f = self.focused_mass;
        let mut connections: Vec<usize> = Vec::new();
        proof {
            if f != NO_MASS {
                assert(self@.links[f as int] == self.masses@[f as int].connections@);
            }
        }
        match self.tpgy {
            2 | 3 => {
                if f != NO_MASS {
                    connections.push(f);
                }
            },
            4 | 5 => {
                if f != NO_MASS {
                    let m0 = &self.masses[f];
                    let len0 = m0.connections.len();
                    if len0 != 0 {
                        let m1_id = m0.connections[len0 - 1];
                        assert(m1_id < self@.len()) by {
                            assert(self@.links[f as int][len0 - 1] == m1_id);
                        }
                        if self.tpgy == 5 && id % 2 == 1 {
                            let m1 = &self.masses[m1_id];
                            let len1 = m1.connections.len();
                            assert(self@.links[m1_id as int] == m1.connections@);
                            if len1 > 1 {
                                let m2_id = m1.connections[len1 - 2];
                                assert(m2_id < self@.len()) by {
                                    assert(self@.links[m1_id as int][len1 - 2] == m2_id);
                                }
                                connections.push(m2_id);
                            }
                        }
                        connections.push(m1_id);
                    }
                    connections.push(f);
                }
            },
            6 | 7 | 8 => {
                if f != NO_MASS {
                    let d_id = id - f;
                    let mut extra = if self.tpgy == 6 {
                        pyramid_extra_links(id, d_id)
                    } else if self.tpgy == 7 {
                        plank_extra_links(id, d_id)
                    } else {
                        brick_extra_links(id, d_id, f)
                    };
                    connections.push(id - 1);
                    connections.append(&mut extra);
                }
            },
            _ => (),
        }
        assert(connections@ =~= new_links(self@));
        connections
    }

    /// Adds a Mass of matter `matter` under the current topology. Under
    /// topology none (0) nothing is added, the focus is cleared and
    /// `NO_MASS` is returned. Otherwise the new Mass gets the next id, which
    /// is returned; it is connected as `new_links` says, each of those
    /// Masses is connected back to it, it joins the list of its matter, and
    /// the focus moves as `new_focus` says. Every Mass takes more than 16
    /// bytes, so there are always fewer than `usize::MAX / 16` of them.
    pub fn add_mass(&mut self, matter: u8) -> (id: usize)
        requires
            old(self).wf(),
            old(self)@.len() < usize::MAX / 16,
        ensures
            final(self).wf(),
            old(self)@.tpgy == 0 ==> id == NO_MASS && final(self)@ == (ClumpState {
                focused: NO_MASS,
                ..old(self)@
            }),
            old(self)@.tpgy != 0 ==> id == old(self)@.len() && final(self)@ == after_add(
                old(self)@,
                matter,
            ),
    {
        if self.tpgy == 0 {
            self.focused_mass = NO_MASS;
            return NO_MASS;
        }
        let id = self.next_id;
        let connections = self.links_for_new_mass(id);
        let focus = match self.tpgy {
            1 => NO_MASS,
            2 => if self.focused_mass == NO_MASS {
                id
            } else {
                NO_MASS
            },
            3 | 4 | 5 => id,
            6 | 7 | 8 => if self.focused_mass == NO_MASS {
                id
            } else {
                self.focused_mass
            },
            _ => self.focused_mass,
        };
        let ghost s = self@;
        proof {
            lemma_after_add_wf(s, matter);
        }
        link_back(&mut self.masses, &connections, id);
        self.masses.push(Mass { id, matter, connections });
        match matter {
            0 => self.masses_antigrav.push(id),
            1 => self.masses_elastic.push(id),
            2 => self.masses_gas.push(id),
            _ => (),
        }
        self.next_id = id + 1;
        self.focused_mass = focus;
        proof {
            let a = after_add(s, matter);
            assert(self@.links =~= a.links);
            assert(self@.matters =~= a.matters);
            assert(self@ == a);
        }
        id
    }
}

/// Connections are mutual, as often one way as the other, and no Mass is
/// connected to itself, in every well-formed Clumpiverse.
pub proof fn connections_are_mutual(c: &Clumpiverse, i: usize, j: usize)
    requires
        c.wf(),
        i < c@.len(),
        j < c@.len(),
    ensures
        count(c@.links[i as int], j) == count(c@.links[j as int], i),
        !c@.links[i as int].contains(i),
{
    if c@.links[i as int].contains(i) {
        let t = choose|t: int| 0 <= t < c@.links[i as int].len() && c@.links[i as int][t] == i;
        assert(c@.links[i as int][t] != i);
    }
}

/// Under pyramid, plank and brick, once the shape has an anchor every new
/// Mass joins the Mass created just before it, first of all.
pub proof fn shapes_join_previous(s: ClumpState)
    requires
        6 <= s.tpgy <= 8,
        s.focused != NO_MASS,
        s.focused < s.len(),
        s.len() <= usize::MAX,
    ensures
        new_links(s).len() >= 1,
        new_links(s)[0] == s.len() - 1,
{
    let id = s.len();
    let d = id - s.focused;
    let extra = if s.tpgy == 6 {
        pyramid_extra(id, d)
    } else if s.tpgy == 7 {
        plank_extra(id, d)
    } else {
        brick_extra(id, d, s.focused as int)
    };
    assert(new_links(s) == seq![(id - 1) as usize] + extra);
    assert((seq![(id - 1) as usize] + extra)[0] == (id - 1) as usize);
}

/// Releasing after a grab hands back exactly the Masses grabbed since the
/// last release, and leaves the lattice as the grab left it but with no grab
/// in progress.
pub proof fn ungrab_releases_grab(s: ClumpState, hits: Seq<usize>)
    requires
        s.grab_ids.len() == 0,
    ensures
        after_grab(s, hits).grab_ids == hits,
        after_ungrab(after_grab(s, hits)).grab_ids.len() == 0,
        !after_ungrab(after_grab(s, hits)).grabbing,
        after_ungrab(after_grab(s, hits)).links == s.links,
        hits.len() > 0 ==> after_grab(s, hits).focused == hits.last(),
{
    assert(s.grab_ids + hits =~= hits);
}

/// Whatever the topology, a new Mass only links to Masses that already
/// exist.
pub proof fn new_links_name_older_masses(s: ClumpState)
    requires
        s.wf(),
        s.len() < usize::MAX,
    ensures
        all_below(new_links(s), s.len()),
        new_focus(s) == NO_MASS || new_focus(s) <= s.len(),
{
    let id = s.len();
    let f = s.focused;
    let l = new_links(s);
    if 4 <= s.tpgy <= 5 && f != NO_MASS {
        let c0 = s.links[f as int];
        if c0.len() > 0 {
            assert(c0[c0.len() - 1] < id);
            let m1 = c0.last();
            let c1 = s.links[m1 as int];
            if c1.len() > 1 {
                assert(c1[c1.len() - 2] < id);
            }
        }
        assert forall|t: int| 0 <= t < l.len() implies #[trigger] l[t] < id by {}
    } else if 6 <= s.tpgy <= 8 && f != NO_MASS {
        let d = id - f;
        let extra = if s.tpgy == 6 {
            lemma_pyramid_extra_below(id, d);
            pyramid_extra(id, d)
        } else if s.tpgy == 7 {
            lemma_plank_extra_below(id, d);
            plank_extra(id, d)
        } else {
            lemma_brick_extra_below(id, d, f as int);
            brick_extra(id, d, f as int)
        };
        assert(l == seq![(id - 1) as usize] + extra);
        assert forall|t: int| 0 <= t < l.len() implies #[trigger] l[t] < id by {
            if t > 0 {
                assert(l[t] == extra[t - 1]);
            }
        }
    }
}

/// Adding a Mass under any topology but none keeps the lattice
/// well-formed: the new Mass links only to older Masses, each older Mass
/// keeps its links and gains one back-link to the new Mass per time the new
/// Mass lists it, connections stay mutual, and the focus names a Mass or
/// nothing.
pub proof fn add_mass_keeps_lattice(s: ClumpState, matter: u8)
    requires
        s.wf(),
        s.len() < usize::MAX / 16,
    ensures
        after_add(s, matter).wf(),
        after_add(s, matter).len() == s.len() + 1,
        all_below(after_add(s, matter).links[s.len()], s.len()),
        forall|k: int|
            0 <= k < s.len() ==> #[trigger] after_add(s, matter).links[k] == s.links[k] + repeat(
                count(after_add(s, matter).links[s.len()], k as usize),
                s.len() as usize,
            ),
        after_add(s, matter).focused == NO_MASS || after_add(s, matter).focused < s.len() + 1,
{
    new_links_name_older_masses(s);
    lemma_after_add_wf(s, matter);
}

/// Mono: a new Mass stands alone and nothing is focused afterwards.
pub proof fn mono_adds_lone_masses(s: ClumpState, matter: u8)
    requires
        s.tpgy == 1,
    ensures
        after_add(s, matter).links[s.len()] == Seq::<usize>::empty(),
        after_add(s, matter).focused == NO_MASS,
{
}

/// Pair: with nothing focused a new Mass stands alone and is focused; with
/// a focused Mass it joins it, and nothing is focused afterwards.
pub proof fn pair_joins_masses_two_by_two(s: ClumpState, matter: u8)
    requires
        s.tpgy == 2,
        s.len() <= usize::MAX,
    ensures
        s.focused == NO_MASS ==> after_add(s, matter).links[s.len()] == Seq::<usize>::empty()
            && after_add(s, matter).focused == s.len(),
        s.focused != NO_MASS ==> after_add(s, matter).links[s.len()] == seq![s.focused]
            && after_add(s, matter).focused == NO_MASS,
{
}

/// Hair: a new Mass joins the focused Mass, if any, and becomes the focus,
/// so Masses form a strand.
pub proof fn hair_grows_a_strand(s: ClumpState, matter: u8)
    requires
        s.tpgy == 3,
        s.len() <= usize::MAX,
    ensures
        after_add(s, matter).links[s.len()] == if s.focused == NO_MASS {
            Seq::<usize>::empty()
        } else {
            seq![s.focused]
        },
        after_add(s, matter).focused == s.len(),
{
}

/// Strut: a new Mass joins the focused Mass's most recent connection, if it
/// has one, and then the focused Mass, whichever Mass is focused; the new
/// Mass becomes the focus.
pub proof fn strut_joins_focus_and_its_newest_link(s: ClumpState, matter: u8)
    requires
        s.tpgy == 4,
        s.focused != NO_MASS,
        s.focused < s.len() <= usize::MAX,
    ensures
        after_add(s, matter).links[s.len()] == if s.links[s.focused as int].len() == 0 {
            seq![s.focused]
        } else {
            seq![s.links[s.focused as int].last(), s.focused]
        },
        after_add(s, matter).focused == s.len(),
{
}

/// Girder: like strut, and a new Mass with an odd id first also joins the
/// second-newest connection of the focused Mass's newest connection, when
/// that Mass has at least two; the new Mass becomes the focus.
pub proof fn girder_joins_across_the_newest_link(s: ClumpState, matter: u8)
    requires
        s.tpgy == 5,
        s.focused != NO_MASS,
        s.focused < s.len() <= usize::MAX,
        s.links[s.focused as int].len() > 0,
    ensures
        ({
            let m1 = s.links[s.focused as int].last();
            let c1 = s.links[m1 as int];
            let new = after_add(s, matter).links[s.len()];
            &&& (s.len() % 2 == 1 && c1.len() > 1) ==> new == seq![c1[c1.len() - 2], m1, s.focused]
            &&& !(s.len() % 2 == 1 && c1.len() > 1) ==> new == seq![m1, s.focused]
        }),
        after_add(s, matter).focused == s.len(),
{
    let m1 = s.links[s.focused as int].last();
    let c1 = s.links[m1 as int];
    if s.len() % 2 == 1 && c1.len() > 1 {
        assert(seq![c1[c1.len() - 2]].push(m1).push(s.focused) =~= seq![
            c1[c1.len() - 2],
            m1,
            s.focused,
        ]);
    } else {
        assert(Seq::<usize>::empty().push(m1).push(s.focused) =~= seq![m1, s.focused]);
    }
}

/// Pyramid, plank and brick: the first Mass becomes the shape's anchor;
/// every later Mass joins the Mass created just before it, all its links
/// lie within the shape (between the anchor and itself), and the anchor
/// stays focused.
pub proof fn shapes_stay_within_their_anchor(s: ClumpState, matter: u8)
    requires
        s.wf(),
        s.len() < usize::MAX / 16,
        6 <= s.tpgy <= 8,
    ensures
        s.focused == NO_MASS ==> after_add(s, matter).links[s.len()] == Seq::<usize>::empty()
            && after_add(s, matter).focused == s.len(),
        s.focused != NO_MASS ==> after_add(s, matter).links[s.len()].len() >= 1
            && after_add(s, matter).links[s.len()][0] == s.len() - 1 && all_within(
            after_add(s, matter).links[s.len()],
            s.focused as int,
            s.len(),
        ) && after_add(s, matter).focused == s.focused,
{
    if s.focused != NO_MASS {
        let id = s.len();
        let f = s.focused as int;
        let d = id - f;
        let extra = if s.tpgy == 6 {
            lemma_pyramid_extra_below(id, d);
            pyramid_extra(id, d)
        } else if s.tpgy == 7 {
            lemma_plank_extra_below(id, d);
            plank_extra(id, d)
        } else {
            lemma_brick_extra_below(id, d, f);
            brick_extra(id, d, f)
        };
        let l = new_links(s);
        assert(l == seq![(id - 1) as usize] + extra);
        assert forall|t: int| 0 <= t < l.len() implies f <= #[trigger] l[t] < id by {
            if t > 0 {
                assert(l[t] == extra[t - 1]);
            }
        }
    }
}

/// Pyramid, plank and brick have the same shape wherever they are
/// anchored: the links of the Mass `d` steps past an anchor at `f` are those
/// of the Mass `d` steps past an anchor at Mass 0, moved `f` ids on.
pub proof fn shapes_are_translation_invariant(s: ClumpState, t: ClumpState, matter: u8)
    requires
        6 <= s.tpgy <= 8,
        t.tpgy == s.tpgy,
        s.focused != NO_MASS,
        s.focused < s.len(),
        s.len() <= usize::MAX,
        t.focused == 0,
        t.len() == s.len() - s.focused,
    ensures
        after_add(s, matter).links[s.len()] == shift(
            after_add(t, matter).links[t.len()],
            s.focused as int,
        ),
{
    let f = s.focused as int;
    let d = t.len();
    let e_s = if s.tpgy == 6 {
        pyramid_is_translation_invariant(f, d);
        pyramid_extra(f + d, d)
    } else if s.tpgy == 7 {
        plank_is_translation_invariant(f, d);
        plank_extra(f + d, d)
    } else {
        brick_is_translation_invariant(f, d);
        brick_extra(f + d, d, f)
    };
    let e_t = if s.tpgy == 6 {
        pyramid_extra(d, d)
    } else if s.tpgy == 7 {
        plank_extra(d, d)
    } else {
        brick_extra(d, d, 0)
    };
    assert(e_s == shift(e_t, f));
    assert(new_links(s) == seq![(f + d - 1) as usize] + e_s);
    assert(new_links(t) == seq![(d - 1) as usize] + e_t);
    assert(new_links(s) =~= shift(new_links(t), f));
}

/// Any other topology code adds a lone Mass and keeps the focus.
pub proof fn unknown_topology_adds_lone_masses(s: ClumpState, matter: u8)
    requires
        s.tpgy > 8,
    ensures
        after_add(s, matter).links[s.len()] == Seq::<usize>::empty(),
        after_add(s, matter).focused == s.focused,
{
}

} // verus!
