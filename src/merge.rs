//! Laying configuration fragments over each other.
use crate::config::{
    add_name, distinct_names, name_set, names_unique, pins_view, reports_clash, text_of,
    ConfigModel, Error, GpioConfig, PinConfig, PinModel,
};
use vstd::prelude::*;

verus! {

/// A copy of `names`, text for text.
fn copy_names(names: &Vec<String>) -> (r: Vec<String>)
    ensures
        r@ == names@,
{
    let mut out: Vec<String> = Vec::new();
    let mut k: usize = 0;
    while k < names.len()
        invariant
            0 <= k <= names@.len(),
            out@ == names@.subrange(0, k as int),
        decreases names@.len() - k,
    {
        out.push(names[k].clone());
        k = k + 1;
        assert(out@ =~= names@.subrange(0, k as int));
    }
    assert(names@.subrange(0, names@.len() as int) =~= names@);
    out
}

fn copy_text(s: &Option<String>) -> (r: Option<String>)
    ensures
        r == *s,
{
    match s {
        Some(t) => Some(t.clone()),
        None => None,
    }
}

impl PinConfig {
    /// A copy of this pin.
    pub fn duplicate(&self) -> (r: PinConfig)
        ensures
            r@ == self@,
            r.names@ == self.names@,
    {
        PinConfig {
            num: self.num,
            direction: self.direction,
            names: copy_names(&self.names),
            export: self.export,
            active_low: self.active_low,
            user: copy_text(&self.user),
            group: copy_text(&self.group),
            mode: self.mode,
        }
    }
}

/// `over` laid over `base`: the names of both; direction, export and
/// active_low of `over`; owner, group and mode of `over` where it gives them.
pub open spec fn merge_pin(base: PinModel, over: PinModel) -> PinModel {
    PinModel {
        num: base.num,
        direction: over.direction,
        names: base.names + over.names,
        export: over.export,
        active_low: over.active_low,
        user: if over.user is Some {
            over.user
        } else {
            base.user
        },
        group: if over.group is Some {
            over.group
        } else {
            base.group
        },
        mode: if over.mode is Some {
            over.mode
        } else {
            base.mode
        },
    }
}

/// `i` is the first entry numbered `num`.
pub open spec fn is_first_with(pins: Seq<PinModel>, num: u64, i: int) -> bool {
    0 <= i < pins.len() && pins[i].num == num && forall|h: int|
        0 <= h < i ==> (#[trigger] pins[h]).num != num
}

/// `p` laid over the first entry with its number, or appended where there is none.
pub open spec fn merge_one(pins: Seq<PinModel>, p: PinModel) -> Seq<PinModel> {
    if exists|i: int| is_first_with(pins, p.num, i) {
        let i = choose|i: int| is_first_with(pins, p.num, i);
        pins.update(i, merge_pin(pins[i], p))
    } else {
        pins.push(p)
    }
}

/// The pins of `overlay` laid, in order, over those of `base`.
pub open spec fn merge_pins(base: Seq<PinModel>, overlay: Seq<PinModel>) -> Seq<PinModel>
    decreases overlay.len(),
{
    if overlay.len() == 0 {
        base
    } else {
        merge_one(merge_pins(base, overlay.drop_last()), overlay.last())
    }
}

/// `over` laid over `base`; the symlink root of `over` wins where it has one.
pub open spec fn merged(base: ConfigModel, over: ConfigModel) -> ConfigModel {
    ConfigModel {
        pins: merge_pins(base.pins, over.pins),
        symlink_root: if over.symlink_root is Some {
            over.symlink_root
        } else {
            base.symlink_root
        },
    }
}

/// The first of `pins` numbered `num`.
pub fn find_num(pins: &Vec<PinConfig>, num: u64) -> (r: Option<usize>)
    ensures
        r matches Some(i) ==> is_first_with(pins_view(pins@), num, i as int),
        r is None ==> forall|h: int| 0 <= h < pins@.len() ==> (#[trigger] pins@[h]).num != num,
{
    let mut i: usize = 0;
    while i < pins.len()
        invariant
            0 <= i <= pins@.len(),
            forall|h: int| 0 <= h < i ==> (#[trigger] pins@[h]).num != num,
        decreases pins@.len() - i,
    {
        if pins[i].num == num {
            assert forall|h: int| 0 <= h < i implies (#[trigger] pins_view(pins@)[h]).num != num by {
                assert(pins_view(pins@)[h] == pins@[h]@);
            }
            return Some(i);
        }
        i = i + 1;
    }
    None
}

proof fn lemma_name_set_extend(names: Seq<String>, k: int)
    requires
        0 <= k < names.len(),
    ensures
        name_set(names.subrange(0, k + 1)) == name_set(names.subrange(0, k)).insert(names[k]@),
{
    let a = names.subrange(0, k);
    let b = names.subrange(0, k + 1);
    assert(b[k] == names[k]);
    assert forall|m: Seq<char>| name_set(a).contains(m) implies name_set(b).contains(m) by {
        let j = choose|j: int| 0 <= j < a.len() && (#[trigger] a[j])@ == m;
        assert(b[j] == a[j]);
    }
    assert forall|m: Seq<char>| name_set(b).contains(m) implies name_set(a).insert(names[k]@).contains(m) by {
        let j = choose|j: int| 0 <= j < b.len() && (#[trigger] b[j])@ == m;
        if j < k {
            assert(a[j] == b[j]);
        }
    }
    assert(name_set(b) =~= name_set(a).insert(names[k]@));
}

/// Lays `over` over the first pin with its number, or appends it.
fn merge_into(pins: &mut Vec<PinConfig>, over: &PinConfig)
    requires
        forall|i: int| 0 <= i < old(pins)@.len() ==> (#[trigger] old(pins)@[i]).wf(),
        over.wf(),
    ensures
        forall|i: int| 0 <= i < final(pins)@.len() ==> (#[trigger] final(pins)@[i]).wf(),
        pins_view(final(pins)@) == merge_one(pins_view(old(pins)@), over@),
{
    let ghost before = pins_view(pins@);
    match find_num(pins, over.num) {
        Some(i) => {
            let cur = &pins[i];
            let mut names = copy_names(&cur.names);
            let ghost base_names = name_set(names@);
            let mut k: usize = 0;
            assert(name_set(over.names@.subrange(0, 0)) =~= Set::empty());
            while k < over.names.len()
                invariant
                    0 <= k <= over.names@.len(),
                    distinct_names(names@),
                    name_set(names@) == base_names + name_set(over.names@.subrange(0, k as int)),
                decreases over.names@.len() - k,
            {
                proof {
                    lemma_name_set_extend(over.names@, k as int);
                }
                add_name(&mut names, over.names[k].clone());
                k = k + 1;
                assert(name_set(names@) =~= base_names + name_set(over.names@.subrange(0, k as int)));
            }
            assert(over.names@.subrange(0, over.names@.len() as int) =~= over.names@);
            let p = PinConfig {
                num: cur.num,
                direction: over.direction,
                names,
                export: over.export,
                active_low: over.active_low,
                user: if over.user.is_some() {
                    copy_text(&over.user)
                } else {
                    copy_text(&cur.user)
                },
                group: if over.group.is_some() {
                    copy_text(&over.group)
                } else {
                    copy_text(&cur.group)
                },
                mode: if over.mode.is_some() {
                    over.mode
                } else {
                    cur.mode
                },
            };
            assert(before[i as int] == pins@[i as int]@);
            assert(base_names == before[i as int].names);
            assert(p@.names == before[i as int].names + over@.names);
            assert(p@ == merge_pin(before[i as int], over@));
            pins.set(i, p);
            proof {
                let c = choose|c: int| is_first_with(before, over.num, c);
                assert(is_first_with(before, over.num, i as int));
                if c < i {
                    assert(before[c].num != over.num);
                } else if c > i {
                    assert(before[i as int].num != over.num);
                }
                assert(pins_view(pins@) =~= before.update(i as int, merge_pin(before[i as int], over@)));
            }
        },
        None => {
            let p = over.duplicate();
            pins.push(p);
            proof {
                assert forall|c: int| !is_first_with(before, over.num, c) by {
                    if 0 <= c < before.len() {
                        assert(before[c] == old(pins)@[c]@);
                    }
                }
                assert(pins_view(pins@) =~= before.push(over@));
            }
        },
    }
}

impl GpioConfig {
    /// Lays `other` over this configuration: a pin of `other` whose number is
    /// already here adds its names to that pin and replaces its direction,
    /// export and active_low flags, and its owner, group and mode where it
    /// gives them; any other pin of `other` is appended. The symlink root of
    /// `other` replaces this one where it gives one. The result is then
    /// checked for names shared between pins.
    pub fn update(&mut self, other: GpioConfig) -> (r: Result<(), Error>)
        requires
            old(self).wf(),
            other.wf(),
        ensures
            final(self).wf(),
            final(self)@ == merged(old(self)@, other@),
            r is Ok <==> names_unique(final(self)@.pins),
            r is Err ==> r->Err_0 is DuplicateNames && reports_clash(
                final(self)@.pins,
                r->Err_0->DuplicateNames_0,
            ),
    {
        let ghost base = self@;
        let ghost over = other@;
        if other.config.symlink_root.is_some() {
            self.config.symlink_root = other.config.symlink_root;
        }
        let mut i: usize = 0;
        assert(over.pins.subrange(0, 0) =~= Seq::<PinModel>::empty());
        while i < other.pins.len()
            invariant
                0 <= i <= other.pins@.len(),
                other.wf(),
                over == other@,
                self.wf(),
                pins_view(self.pins@) == merge_pins(base.pins, over.pins.subrange(0, i as int)),
                text_of(self.config.symlink_root) == merged(base, over).symlink_root,
            decreases other.pins@.len() - i,
        {
            merge_into(&mut self.pins, &other.pins[i]);
            proof {
                let next = over.pins.subrange(0, i + 1);
                assert(next.drop_last() =~= over.pins.subrange(0, i as int));
                assert(next.last() == other.pins@[i as int]@);
            }
            i = i + 1;
        }
        assert(over.pins.subrange(0, over.pins.len() as int) =~= over.pins);
        self.validate()
    }
}

pub open spec fn configs_view(cfgs: Seq<GpioConfig>) -> Seq<ConfigModel> {
    cfgs.map_values(|c: GpioConfig| c@)
}

/// The first `n` fragments laid over each other in order (`n >= 1`).
pub open spec fn fold_merge(frags: Seq<ConfigModel>, n: int) -> ConfigModel
    decreases n,
{
    if n <= 1 {
        frags[0]
    } else {
        merged(fold_merge(frags, n - 1), frags[n - 1])
    }
}

/// Each merge step up to the `n`-th fragment left no name on two pins.
pub open spec fn steps_unique(frags: Seq<ConfigModel>, n: int) -> bool {
    forall|k: int| 2 <= k <= n ==> names_unique((#[trigger] fold_merge(frags, k)).pins)
}

impl GpioConfig {
    /// Lays the fragments over each other, from the lowest priority to the
    /// highest, checking after each step that no two pins share a name.
    pub fn combine(fragments: Vec<GpioConfig>) -> (r: Result<GpioConfig, Error>)
        requires
            forall|i: int| 0 <= i < fragments@.len() ==> (#[trigger] fragments@[i]).wf(),
        ensures
            fragments@.len() == 0 ==> r is Err && r->Err_0 is NoConfigFound,
            fragments@.len() > 0 && steps_unique(configs_view(fragments@), fragments@.len() as int)
                ==> r is Ok,
            r is Ok ==> fragments@.len() > 0 && r->Ok_0.wf() && steps_unique(
                configs_view(fragments@),
                fragments@.len() as int,
            ) && r->Ok_0@ == fold_merge(configs_view(fragments@), fragments@.len() as int),
            r is Err && fragments@.len() > 0 ==> exists|k: int|
                2 <= k <= fragments@.len() && steps_unique(configs_view(fragments@), k - 1)
                    && r->Err_0 is DuplicateNames && reports_clash(
                    (#[trigger] fold_merge(configs_view(fragments@), k)).pins,
                    r->Err_0->DuplicateNames_0,
                ),
    {
        let ghost frags = configs_view(fragments@);
        let ghost n = fragments@.len() as int;
        if fragments.len() == 0 {
            return Err(Error::NoConfigFound);
        }
        let mut rest = fragments;
        let mut acc = rest.remove(0);
        let ghost mut k: int = 1;
        assert(acc@ == frags[0]);
        while rest.len() > 0
            invariant
                1 <= k <= n,
                frags == configs_view(fragments@),
                n == fragments@.len(),
                rest@ == fragments@.subrange(k, n),
                forall|i: int| 0 <= i < rest@.len() ==> (#[trigger] rest@[i]).wf(),
                acc.wf(),
                acc@ == fold_merge(frags, k),
                steps_unique(frags, k),
            decreases rest@.len(),
        {
            let next = rest.remove(0);
            assert(next == fragments@[k]);
            assert(next@ == frags[k]);
            let step = acc.update(next);
            proof {
                k = k + 1;
            }
            assert(acc@ == fold_merge(frags, k));
            match step {
                Ok(()) => {},
                Err(e) => {
                    assert(steps_unique(frags, k - 1));
                    return Err(e);
                },
            }
            assert(rest@ =~= fragments@.subrange(k, n));
        }
        Ok(acc)
    }
}

/// No two entries carry the same number.
pub open spec fn numbers_distinct(pins: Seq<PinModel>) -> bool {
    forall|a: int, b: int|
        0 <= a < pins.len() && 0 <= b < pins.len() && a != b ==> (#[trigger] pins[a]).num
            != (#[trigger] pins[b]).num
}

proof fn lemma_merge_disjoint(base: Seq<PinModel>, over: Seq<PinModel>, k: int)
    requires
        0 <= k <= over.len(),
        forall|i: int, j: int|
            0 <= i < base.len() && 0 <= j < over.len() ==> (#[trigger] base[i]).num
                != (#[trigger] over[j]).num,
        numbers_distinct(over),
    ensures
        merge_pins(base, over.subrange(0, k)) == base + over.subrange(0, k),
    decreases k,
{
    if k > 0 {
        let prefix = over.subrange(0, k);
        assert(prefix.drop_last() =~= over.subrange(0, k - 1));
        lemma_merge_disjoint(base, over, k - 1);
        let before = base + over.subrange(0, k - 1);
        let p = over[k - 1];
        assert forall|c: int| !is_first_with(before, p.num, c) by {
            if 0 <= c < before.len() {
                if c < base.len() {
                    assert(before[c] == base[c]);
                } else {
                    assert(before[c] == over[c - base.len()]);
                }
            }
        }
        assert(before.push(p) =~= base + prefix);
    }
}

/// Laying a configuration over one that declares none of its pin numbers
/// keeps the pins of the first, in their order, followed by those of the
/// second, in theirs (each number declared once in the second).
pub proof fn merge_of_disjoint_pins_appends(base: GpioConfig, overlay: GpioConfig)
    requires
        forall|i: int, j: int|
            0 <= i < base@.pins.len() && 0 <= j < overlay@.pins.len() ==> (#[trigger] base@.pins[i]).num
                != (#[trigger] overlay@.pins[j]).num,
        numbers_distinct(overlay@.pins),
    ensures
        merged(base@, overlay@).pins == base@.pins + overlay@.pins,
{
    lemma_merge_disjoint(base@.pins, overlay@.pins, overlay@.pins.len() as int);
    assert(overlay@.pins.subrange(0, overlay@.pins.len() as int) =~= overlay@.pins);
}

proof fn lemma_merge_shared(base: Seq<PinModel>, over: Seq<PinModel>, i: int, j: int, k: int)
    requires
        0 <= i < base.len(),
        0 <= j < over.len(),
        0 <= k <= over.len(),
        base[i].num == over[j].num,
        numbers_distinct(base),
        numbers_distinct(over),
    ensures
        merge_pins(base, over.subrange(0, k)).len() >= base.len(),
        forall|p: int|
            0 <= p < base.len() ==> (#[trigger] merge_pins(base, over.subrange(0, k))[p]).num
                == base[p].num,
        merge_pins(base, over.subrange(0, k))[i] == if k > j {
            merge_pin(base[i], over[j])
        } else {
            base[i]
        },
    decreases k,
{
    if k > 0 {
        let prefix = over.subrange(0, k);
        assert(prefix.drop_last() =~= over.subrange(0, k - 1));
        lemma_merge_shared(base, over, i, j, k - 1);
        let before = merge_pins(base, over.subrange(0, k - 1));
        let p = over[k - 1];
        assert(prefix.last() == p);
        if k - 1 == j {
            assert forall|h: int| 0 <= h < i implies (#[trigger] before[h]).num != p.num by {
                assert(before[h].num == base[h].num);
            }
            assert(is_first_with(before, p.num, i));
            let c = choose|c: int| is_first_with(before, p.num, c);
            if c < i {
                assert(before[c].num != p.num);
            } else if c > i {
                assert(before[i].num != p.num);
            }
            assert(merge_one(before, p) == before.update(i, merge_pin(before[i], p)));
        } else if exists|c: int| is_first_with(before, p.num, c) {
            let c = choose|c: int| is_first_with(before, p.num, c);
            assert(p.num != over[j].num);
            assert(c != i);
        }
    }
}

/// Where both configurations declare pin `n` (each number once in each),
/// the merged pin `n` stands where the first had it, holds the names of
/// both, and takes direction, export and active_low from the second.
pub proof fn merge_of_shared_pin(base: GpioConfig, overlay: GpioConfig, i: int, j: int)
    requires
        0 <= i < base@.pins.len(),
        0 <= j < overlay@.pins.len(),
        base@.pins[i].num == overlay@.pins[j].num,
        numbers_distinct(base@.pins),
        numbers_distinct(overlay@.pins),
    ensures
        merged(base@, overlay@).pins[i].num == base@.pins[i].num,
        merged(base@, overlay@).pins[i].names == base@.pins[i].names + overlay@.pins[j].names,
        merged(base@, overlay@).pins[i].direction == overlay@.pins[j].direction,
        merged(base@, overlay@).pins[i].export == overlay@.pins[j].export,
        merged(base@, overlay@).pins[i].active_low == overlay@.pins[j].active_low,
{
    let n = overlay@.pins.len() as int;
    lemma_merge_shared(base@.pins, overlay@.pins, i, j, n);
    assert(overlay@.pins.subrange(0, n) =~= overlay@.pins);
}

} // verus!
