//! The collection of configured devices.
use crate::device::{Device, DeviceError, Operation};
use crate::ports::chars_of;
use crate::switch::Switch;
use crate::wol::Wol;
use vstd::prelude::*;

verus! {

broadcast use vstd::seq_lib::to_multiset_insert;

/// Whether `a` comes before `b` or equals it, character by character; a
/// prefix comes first. This is the order of `str`'s comparison.
pub open spec fn text_le(a: Seq<char>, b: Seq<char>) -> bool
    decreases a.len(),
{
    if a.len() == 0 {
        true
    } else if b.len() == 0 {
        false
    } else if a[0] != b[0] {
        a[0] < b[0]
    } else {
        text_le(a.drop_first(), b.drop_first())
    }
}

proof fn lemma_text_le_total(a: Seq<char>, b: Seq<char>)
    ensures
        text_le(a, b) || text_le(b, a),
    decreases a.len(),
{
    if a.len() > 0 && b.len() > 0 && a[0] == b[0] {
        lemma_text_le_total(a.drop_first(), b.drop_first());
    }
}

proof fn lemma_text_le_reflexive(a: Seq<char>)
    ensures
        text_le(a, a),
    decreases a.len(),
{
    if a.len() > 0 {
        lemma_text_le_reflexive(a.drop_first());
    }
}

proof fn lemma_text_le_antisymmetric(a: Seq<char>, b: Seq<char>)
    requires
        text_le(a, b),
        text_le(b, a),
    ensures
        a == b,
    decreases a.len(),
{
    if a.len() > 0 && b.len() > 0 {
        lemma_text_le_antisymmetric(a.drop_first(), b.drop_first());
        assert(a == seq![a[0]] + a.drop_first());
        assert(b == seq![b[0]] + b.drop_first());
    } else {
        assert(a.len() == 0 && b.len() == 0);
        assert(a =~= b);
    }
}

/// Whether each text comes no later than the next.
pub open spec fn ascending_texts(s: Seq<Seq<char>>) -> bool {
    forall|i: int| 0 <= i < s.len() - 1 ==> text_le(#[trigger] s[i], s[i + 1])
}

/// The texts of a list of strings.
pub open spec fn texts(v: Seq<String>) -> Seq<Seq<char>> {
    v.map_values(|s: String| s@)
}

/// The names of a list of switches.
pub open spec fn switch_names(v: Seq<Switch>) -> Seq<Seq<char>> {
    v.map_values(|s: Switch| s@.name)
}

/// The names of a list of wake devices.
pub open spec fn wol_names(v: Seq<Wol>) -> Seq<Seq<char>> {
    v.map_values(|w: Wol| w@.0)
}

/// Whether `a` comes before `b` or equals it.
pub fn compare_texts(a: &str, b: &str) -> (r: bool)
    ensures
        r == text_le(a@, b@),
{
    let x = chars_of(a);
    let y = chars_of(b);
    let mut i: usize = 0;
    assert(a@.skip(0) == a@);
    assert(b@.skip(0) == b@);
    while i < x.len() && i < y.len() && x[i] == y[i]
        invariant
            x@ == a@,
            y@ == b@,
            i <= x@.len(),
            i <= y@.len(),
            text_le(a@, b@) == text_le(a@.skip(i as int), b@.skip(i as int)),
        decreases x@.len() - i,
    {
        assert(a@.skip(i as int).drop_first() == a@.skip(i as int + 1));
        assert(b@.skip(i as int).drop_first() == b@.skip(i as int + 1));
        i = i + 1;
    }
    if i == x.len() {
        true
    } else if i == y.len() {
        false
    } else {
        assert(a@.skip(i as int)[0] == x@[i as int]);
        assert(b@.skip(i as int)[0] == y@[i as int]);
        x[i] < y[i]
    }
}

/// Adds `x` to an ascending list of strings, keeping it ascending.
fn insert_text(v: &mut Vec<String>, x: String)
    requires
        ascending_texts(texts(old(v)@)),
    ensures
        ascending_texts(texts(final(v)@)),
        texts(final(v)@).to_multiset() == texts(old(v)@).to_multiset().insert(x@),
{
    let mut p: usize = 0;
    while p < v.len() && compare_texts(v[p].as_str(), x.as_str())
        invariant
            p <= v@.len(),
            v@ == old(v)@,
            forall|k: int| 0 <= k < p ==> text_le(#[trigger] texts(v@)[k], x@),
        decreases v@.len() - p,
    {
        p = p + 1;
    }
    if p < v.len() {
        proof {
            lemma_text_le_total(v@[p as int]@, x@);
        }
    }
    let ghost before = v@;
    v.insert(p, x);
    assert(texts(v@) =~= texts(before).insert(p as int, x@));
    assert forall|i: int| 0 <= i < texts(v@).len() - 1 implies text_le(
        #[trigger] texts(v@)[i],
        texts(v@)[i + 1],
    ) by {
        if i + 1 < p {
            assert(texts(before)[i] == texts(v@)[i]);
            assert(texts(before)[i + 1] == texts(v@)[i + 1]);
        } else if i + 1 == p {
        } else if i == p {
        } else {
            assert(texts(before)[i - 1] == texts(v@)[i]);
            assert(texts(before)[i] == texts(v@)[i + 1]);
        }
    }
}

/// The texts of `names`, ascending.
pub fn sorted_names(names: &Vec<String>) -> (r: Vec<String>)
    ensures
        ascending_texts(texts(r@)),
        texts(r@).to_multiset() == texts(names@).to_multiset(),
{
    let mut r: Vec<String> = Vec::new();
    let mut i: usize = 0;
    assert(texts(names@).take(0) =~= Seq::<Seq<char>>::empty());
    assert(texts(r@) =~= Seq::<Seq<char>>::empty());
    while i < names.len()
        invariant
            i <= names@.len(),
            ascending_texts(texts(r@)),
            texts(r@).to_multiset() == texts(names@).take(i as int).to_multiset(),
        decreases names@.len() - i,
    {
        let name = names[i].clone();
        insert_text(&mut r, name);
        proof {
            assert(texts(names@).take(i as int + 1) == texts(names@).take(i as int).push(
                names@[i as int]@,
            ));
            vstd::seq_lib::to_multiset_build(texts(names@).take(i as int), names@[i as int]@);
        }
        i = i + 1;
    }
    assert(texts(names@).take(i as int) == texts(names@));
    r
}

/// The configured switches and wake devices.
pub struct Config {
    pub switches: Vec<Switch>,
    pub wols: Vec<Wol>,
}

impl Config {
    /// An empty configuration.
    pub fn new() -> (r: Self)
        ensures
            r.switches@.len() == 0,
            r.wols@.len() == 0,
    {
        Self { switches: Vec::new(), wols: Vec::new() }
    }

    pub fn add_switch(&mut self, switch: Switch)
        ensures
            final(self).switches@ == old(self).switches@.push(switch),
            final(self).wols@ == old(self).wols@,
    {
        self.switches.push(switch);
    }

    pub fn add_wol(&mut self, wol: Wol)
        ensures
            final(self).wols@ == old(self).wols@.push(wol),
            final(self).switches@ == old(self).switches@,
    {
        self.wols.push(wol);
    }

    /// The switch names, ascending.
    pub fn get_switch_names(&self) -> (r: Vec<String>)
        ensures
            ascending_texts(texts(r@)),
            texts(r@).to_multiset() == switch_names(self.switches@).to_multiset(),
    {
        let mut names: Vec<String> = Vec::new();
        let mut i: usize = 0;
        while i < self.switches.len()
            invariant
                i <= self.switches@.len(),
                texts(names@) == switch_names(self.switches@).take(i as int),
            decreases self.switches@.len() - i,
        {
            let ghost before = names@;
            let name = self.switches[i].get_name().to_owned();
            names.push(name);
            assert(texts(names@) =~= texts(before).push(self.switches@[i as int]@.name));
            assert(switch_names(self.switches@).take(i as int + 1) =~= switch_names(self.switches@).take(
                i as int,
            ).push(self.switches@[i as int]@.name));
            i = i + 1;
        }
        assert(switch_names(self.switches@).take(i as int) == switch_names(self.switches@));
        sorted_names(&names)
    }

    /// The wake device names, ascending.
    pub fn get_wol_names(&self) -> (r: Vec<String>)
        ensures
            ascending_texts(texts(r@)),
            texts(r@).to_multiset() == wol_names(self.wols@).to_multiset(),
    {
        let mut names: Vec<String> = Vec::new();
        let mut i: usize = 0;
        while i < self.wols.len()
            invariant
                i <= self.wols@.len(),
                texts(names@) == wol_names(self.wols@).take(i as int),
            decreases self.wols@.len() - i,
        {
            let ghost before = names@;
            let name = self.wols[i].get_name().to_owned();
            names.push(name);
            assert(texts(names@) =~= texts(before).push(self.wols@[i as int]@.0));
            assert(wol_names(self.wols@).take(i as int + 1) =~= wol_names(self.wols@).take(
                i as int,
            ).push(self.wols@[i as int]@.0));
            i = i + 1;
        }
        assert(wol_names(self.wols@).take(i as int) == wol_names(self.wols@));
        sorted_names(&names)
    }
}

impl Config {
    /// The position of the first switch named `name`.
    pub fn find_switch(&self, name: &str) -> (r: Option<usize>)
        ensures
            r matches Some(i) ==> i < self.switches@.len() && self.switches@[i as int]@.name
                == name@ && forall|j: int| 0 <= j < i ==> self.switches@[j]@.name != name@,
            r is None ==> forall|j: int|
                0 <= j < self.switches@.len() ==> self.switches@[j]@.name != name@,
    {
        let mut i: usize = 0;
        while i < self.switches.len()
            invariant
                i <= self.switches@.len(),
                forall|j: int| 0 <= j < i ==> self.switches@[j]@.name != name@,
            decreases self.switches@.len() - i,
        {
            if compare_texts(self.switches[i].get_name(), name) && compare_texts(
                name,
                self.switches[i].get_name(),
            ) {
                proof {
                    lemma_text_le_antisymmetric(self.switches@[i as int]@.name, name@);
                }
                return Some(i);
            }
            proof {
                lemma_text_le_reflexive(name@);
            }
            i = i + 1;
        }
        None
    }

    /// The position of the first wake device named `name`.
    pub fn find_wol(&self, name: &str) -> (r: Option<usize>)
        ensures
            r matches Some(i) ==> i < self.wols@.len() && self.wols@[i as int]@.0 == name@
                && forall|j: int| 0 <= j < i ==> self.wols@[j]@.0 != name@,
            r is None ==> forall|j: int| 0 <= j < self.wols@.len() ==> self.wols@[j]@.0 != name@,
    {
        let mut i: usize = 0;
        while i < self.wols.len()
            invariant
                i <= self.wols@.len(),
                forall|j: int| 0 <= j < i ==> self.wols@[j]@.0 != name@,
            decreases self.wols@.len() - i,
        {
            if compare_texts(self.wols[i].get_name(), name) && compare_texts(
                name,
                self.wols[i].get_name(),
            ) {
                proof {
                    lemma_text_le_antisymmetric(self.wols@[i as int]@.0, name@);
                }
                return Some(i);
            }
            proof {
                lemma_text_le_reflexive(name@);
            }
            i = i + 1;
        }
        None
    }

    /// What switching on the switch at `index` takes.
    pub fn enable_switch(&self, index: usize) -> (r: Result<Operation, DeviceError>)
        requires
            index < self.switches@.len(),
        ensures
            self.switches@[index as int].enable_result(r),
    {
        self.switches[index].enable()
    }

    /// What switching off the switch at `index` takes.
    pub fn disable_switch(&self, index: usize) -> (r: Result<Operation, DeviceError>)
        requires
            index < self.switches@.len(),
        ensures
            self.switches@[index as int].disable_result(r),
    {
        self.switches[index].disable()
    }

    /// What reading the state of the switch at `index` takes.
    pub fn get_switch_status(&self, index: usize) -> (r: Result<Operation, DeviceError>)
        requires
            index < self.switches@.len(),
        ensures
            self.switches@[index as int].status_result(r),
    {
        self.switches[index].status()
    }

    /// Gives the switch at `index` the attributes of `attrs`; the others stay.
    pub fn update_switch(&mut self, index: usize, attrs: Switch)
        requires
            index < old(self).switches@.len(),
        ensures
            final(self).switches@.len() == old(self).switches@.len(),
            old(self).switches@[index as int].updated(attrs, final(self).switches@[index as int]),
            forall|j: int|
                0 <= j < old(self).switches@.len() && j != index ==> final(self).switches@[j]
                    == old(self).switches@[j],
            final(self).wols@ == old(self).wols@,
    {
        let mut switch = self.switches.remove(index);
        switch.update(attrs);
        self.switches.insert(index, switch);
    }

    /// What waking the device at `index` takes.
    pub fn enable_wol(&self, index: usize) -> (r: Result<Operation, DeviceError>)
        requires
            index < self.wols@.len(),
        ensures
            self.wols@[index as int].enable_result(r),
    {
        self.wols[index].enable()
    }

    /// Gives the wake device at `index` the hardware address of `attrs`; the
    /// others stay.
    pub fn update_wol(&mut self, index: usize, attrs: Wol)
        requires
            index < old(self).wols@.len(),
        ensures
            final(self).wols@.len() == old(self).wols@.len(),
            old(self).wols@[index as int].updated(attrs, final(self).wols@[index as int]),
            forall|j: int|
                0 <= j < old(self).wols@.len() && j != index ==> final(self).wols@[j] == old(
                    self,
                ).wols@[j],
            final(self).switches@ == old(self).switches@,
    {
        let mut wol = self.wols.remove(index);
        wol.update(attrs);
        self.wols.insert(index, wol);
    }
}

} // verus!
