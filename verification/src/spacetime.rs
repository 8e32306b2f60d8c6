use vstd::prelude::*;

verus! {

/// Number of body slots of the spacetime uniform.
pub const MAX_BODIES: usize = 4;

/// The bodies that warp the spacetime grid, as the shader reads them:
/// `MAX_BODIES` slots, the first `count` of them holding one record per
/// body in order, the rest blank.
pub struct SpacetimeUniform<S> {
    pub bodies: [S; 4],
    pub count: u32,
}

/// Slot `i` holds body `i` while there is one, and `blank` after that.
pub open spec fn packed_slots<S>(bodies: Seq<S>, blank: S) -> Seq<S> {
    Seq::new(MAX_BODIES as nat, |i: int| if i < bodies.len() { bodies[i] } else { blank })
}

fn pack<S: Copy>(body: &Vec<S>, blank: S) -> (slots: [S; 4])
    requires
        body.len() <= MAX_BODIES,
    ensures
        slots@ == packed_slots(body@, blank),
{
    let mut slots = [blank;4];
    let mut i: usize = 0;
    while i < body.len()
        invariant
            i <= body.len() <= MAX_BODIES,
            slots@.len() == MAX_BODIES,
            forall|j: int| 0 <= j < i ==> #[trigger] slots@[j] == body@[j],
            forall|j: int| i <= j < MAX_BODIES ==> #[trigger] slots@[j] == blank,
        decreases body.len() - i,
    {
        slots[i] = body[i];
        i = i + 1;
    }
    assert(slots@ =~= packed_slots(body@, blank));
    slots
}

impl<S: Copy> SpacetimeUniform<S> {
    /// Packs `body` (at most `MAX_BODIES` records) into the slots, filling
    /// the unused ones with `blank`.
    pub fn new(body: &Vec<S>, blank: S) -> (r: Self)
        requires
            body.len() <= MAX_BODIES,
        ensures
            r.bodies@ == packed_slots(body@, blank),
            r.count == body.len(),
            forall|i: int| 0 <= i < body.len() ==> #[trigger] r.bodies@[i] == body@[i],
            forall|i: int| body.len() <= i < MAX_BODIES ==> #[trigger] r.bodies@[i] == blank,
    {
        proof {
            lemma_packing_keeps_every_body(body@, blank);
        }
        SpacetimeUniform { bodies: pack(body, blank), count: body.len() as u32 }
    }

    /// Repacks the slots from `body`: whatever they held before, the
    /// uniform ends up as `new(body, blank)` would build it.
    pub fn update_all(&mut self, body: &Vec<S>, blank: S)
        requires
            body.len() <= MAX_BODIES,
        ensures
            final(self).bodies@ == packed_slots(body@, blank),
            final(self).count == body.len(),
            forall|i: int| 0 <= i < body.len() ==> #[trigger] final(self).bodies@[i] == body@[i],
            forall|i: int|
                body.len() <= i < MAX_BODIES ==> #[trigger] final(self).bodies@[i] == blank,
    {
        proof {
            lemma_packing_keeps_every_body(body@, blank);
        }
        self.bodies = pack(body, blank);
        self.count = body.len() as u32;
    }
}

/// Packing keeps every body, in its own slot: slot `i` holds body `i`
/// for each body there is, and the slots past the last body are blank.
/// There are always `MAX_BODIES` slots.
pub proof fn lemma_packing_keeps_every_body<S>(bodies: Seq<S>, blank: S)
    requires
        bodies.len() <= MAX_BODIES,
    ensures
        packed_slots(bodies, blank).len() == MAX_BODIES,
        forall|i: int| 0 <= i < bodies.len() ==> #[trigger] packed_slots(bodies, blank)[i] == bodies[i],
        forall|i: int|
            bodies.len() <= i < MAX_BODIES ==> #[trigger] packed_slots(bodies, blank)[i] == blank,
{
}

} // verus!
