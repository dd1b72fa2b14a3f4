use vstd::prelude::*;

verus! {

/// Mathematical model of the allocator state: the fixed capacity, the number
/// of draws performed so far, the sparse override map, and the history of
/// identifiers drawn so far (in draw order).
#[verifier::ext_equal]
pub ghost struct AllocModel {
    pub capacity: u64,
    pub count: u64,
    pub overrides: Map<u64, u64>,
    pub drawn: Seq<u64>,
}

/// The identifier currently represented by window slot `i`: the override
/// entry if one is present, the slot index itself otherwise.
pub open spec fn resolve(m: Map<u64, u64>, i: u64) -> u64 {
    if m.contains_key(i) {
        m[i]
    } else {
        i
    }
}

impl AllocModel {
    /// Number of identifiers not yet drawn; slots `0..window()` are live.
    pub open spec fn window(self) -> u64 {
        (self.capacity - self.count) as u64
    }

    /// The model of a freshly constructed allocator: nothing drawn, every
    /// slot still representing its own index.
    pub open spec fn fresh(capacity: u64) -> AllocModel {
        AllocModel {
            capacity,
            count: 0,
            overrides: Map::empty(),
            drawn: Seq::empty(),
        }
    }

    /// `v` is still reachable through some live window slot.
    pub open spec fn undrawn_in_window(self, v: u64) -> bool {
        exists|i: u64| i < self.window() && resolve(self.overrides, i) == v
    }

    /// The state invariant. The live window slots resolve, injectively, to
    /// identifiers below the capacity that have not been drawn yet, and
    /// together with the drawn history they cover all of `[0, capacity)`;
    /// the history itself never repeats an identifier. The override map
    /// stays sparse: it holds at most one entry per draw performed.
    pub open spec fn inv(self) -> bool {
        &&& self.count <= self.capacity
        &&& self.drawn.len() == self.count
        &&& self.overrides.dom().finite()
        &&& self.overrides.dom().len() <= self.count
        &&& self.drawn.no_duplicates()
        &&& forall|k: int| 0 <= k < self.drawn.len() ==> self.drawn[k] < self.capacity
        &&& forall|i: u64|
            i < self.window() ==> #[trigger] resolve(self.overrides, i) < self.capacity
        &&& forall|i: u64, j: u64|
            i < j < self.window() ==> resolve(self.overrides, i) != resolve(self.overrides, j)
        &&& forall|i: u64|
            i < self.window() ==> !self.drawn.contains(#[trigger] resolve(self.overrides, i))
        &&& forall|v: u64|
            v < self.capacity ==> self.drawn.contains(v) || #[trigger] self.undrawn_in_window(v)
    }

    /// The window slot picked by reducing `raw` modulo the window size.
    pub open spec fn pick(self, raw: u64) -> u64 {
        raw % self.window()
    }

    /// The identifier a draw driven by `raw` returns.
    pub open spec fn drawn_id(self, raw: u64) -> u64 {
        resolve(self.overrides, self.pick(raw))
    }

    /// The state after one successful draw driven by `raw`: the picked slot
    /// takes over the identity of the window's last slot (the lazy
    /// Fisher-Yates swap), the counter advances, the history grows.
    pub open spec fn step(self, raw: u64) -> AllocModel {
        AllocModel {
            capacity: self.capacity,
            count: (self.count + 1) as u64,
            overrides: self.overrides.insert(
                self.pick(raw),
                resolve(self.overrides, (self.window() - 1) as u64),
            ),
            drawn: self.drawn.push(self.drawn_id(raw)),
        }
    }

    /// The state after successive draws driven by `raws`, in order.
    pub open spec fn run(self, raws: Seq<u64>) -> AllocModel
        decreases raws.len(),
    {
        if raws.len() == 0 {
            self
        } else {
            self.step(raws[0]).run(raws.subrange(1, raws.len() as int))
        }
    }
}

/// A fresh allocator state satisfies the invariant: every slot below the
/// capacity still resolves to its own index.
pub proof fn lemma_fresh_inv(capacity: u64)
    ensures
        AllocModel::fresh(capacity).inv(),
{
    let m = AllocModel::fresh(capacity);
    assert forall|v: u64| v < m.capacity implies #[trigger] m.undrawn_in_window(v) by {
        assert(resolve(m.overrides, v) == v);
        assert(v < m.window());
    }
}

/// One successful draw step preserves the invariant, returns an identifier
/// below the capacity, and never repeats an identifier drawn earlier.
pub proof fn lemma_step_preserves_inv(s: AllocModel, raw: u64)
    requires
        s.inv(),
        s.count < s.capacity,
    ensures
        s.step(raw).inv(),
        s.drawn_id(raw) < s.capacity,
        !s.drawn.contains(s.drawn_id(raw)),
{
    let w = s.window();
    let r = s.pick(raw);
    assert(r < w) by {
        assert(raw % w < w) by (nonlinear_arith)
            requires w > 0;
    }
    let last = (w - 1) as u64;
    let id = resolve(s.overrides, r);
    let lv = resolve(s.overrides, last);
    let t = s.step(raw);
    assert(t.window() == w - 1);
    assert(resolve(t.overrides, r) == lv);
    assert(!s.drawn.contains(id));
    assert(id < s.capacity);

    // The new history never repeats an identifier.
    assert forall|k: int, l: int|
        0 <= k < t.drawn.len() && 0 <= l < t.drawn.len() && k != l implies t.drawn[k]
        != t.drawn[l] by {
        if k < s.drawn.len() && l < s.drawn.len() {
            assert(s.drawn[k] == t.drawn[k] && s.drawn[l] == t.drawn[l]);
        } else if k < s.drawn.len() {
            assert(t.drawn[l] == id && t.drawn[k] == s.drawn[k]);
            assert(s.drawn.contains(s.drawn[k]));
        } else {
            assert(t.drawn[k] == id && t.drawn[l] == s.drawn[l]);
            assert(s.drawn.contains(s.drawn[l]));
        }
    }

    // Live slots of the shrunk window still resolve below the capacity,
    // injectively, and to identifiers outside the new history.
    assert forall|i: u64| i < t.window() implies #[trigger] resolve(t.overrides, i)
        < t.capacity by {
        if i != r {
            assert(resolve(t.overrides, i) == resolve(s.overrides, i));
        }
    }
    assert forall|i: u64, j: u64| i < j < t.window() implies resolve(t.overrides, i) != resolve(
        t.overrides,
        j,
    ) by {
        if i == r {
            assert(resolve(t.overrides, i) == resolve(s.overrides, last));
            assert(resolve(t.overrides, j) == resolve(s.overrides, j));
        } else if j == r {
            assert(resolve(t.overrides, j) == resolve(s.overrides, last));
            assert(resolve(t.overrides, i) == resolve(s.overrides, i));
        } else {
            assert(resolve(t.overrides, i) == resolve(s.overrides, i));
            assert(resolve(t.overrides, j) == resolve(s.overrides, j));
        }
    }
    assert forall|i: u64| i < t.window() implies !t.drawn.contains(
        #[trigger] resolve(t.overrides, i),
    ) by {
        let v = resolve(t.overrides, i);
        if i == r {
            assert(v == resolve(s.overrides, last));
            assert(r < last);
            assert(v != id);
        } else {
            assert(v == resolve(s.overrides, i));
            assert(v != id);
        }
        assert(!s.drawn.contains(v));
        assert forall|k: int| 0 <= k < t.drawn.len() implies t.drawn[k] != v by {
            if k < s.drawn.len() {
                assert(s.drawn.contains(s.drawn[k]));
            }
        }
    }

    // Every identifier below the capacity is still accounted for: either it
    // has been drawn by now, or some live slot still resolves to it.
    assert forall|v: u64|
        v < t.capacity && !t.drawn.contains(v) implies #[trigger] t.undrawn_in_window(v) by {
        assert(s.drawn.len() < t.drawn.len());
        assert forall|k: int| 0 <= k < s.drawn.len() implies s.drawn[k] == t.drawn[k] by {}
        if s.drawn.contains(v) {
            let k = choose|k: int| 0 <= k < s.drawn.len() && s.drawn[k] == v;
            assert(t.drawn[k] == v);
            assert(t.drawn.contains(v));
        } else {
            assert(s.undrawn_in_window(v));
            let i = choose|i: u64| i < w && resolve(s.overrides, i) == v;
            if i == r {
                assert(v == id);
                assert(t.drawn[s.drawn.len() as int] == id);
                assert(t.drawn.contains(v));
            } else if i == last {
                assert(resolve(t.overrides, r) == v);
                assert(r < t.window());
            } else {
                assert(resolve(t.overrides, i) == resolve(s.overrides, i));
                assert(i < t.window());
            }
        }
    }
}

} // verus!
