//! The randomized recursive generator of the maze skeleton.
//!
//! Starting from one landing at the origin, the maze grows depth-first:
//! each branch rotates away from its landing by a sampled angle, runs a
//! sampled length, twists its far end by a sampled roll, and then either
//! closes with a dead end or opens a new landing with two further branches.
//! Every draw comes from the seed's word stream, so the whole skeleton is a
//! function of the seed alone: `extend_landing` and `generate_skeleton`
//! return exactly the values of their spec models.

use vstd::prelude::*;

use crate::fixed::{iabs, SCALE};
use crate::params::{ANGLE_MARGIN_FIX, GEN_LIMIT, MAX_RECURSION_DEPTH, MAX_TUNNEL_LENGTH_FIX,
    MAX_TWIST_FIX, MIN_ANGLE_FIX, MIN_TUNNEL_LENGTH_FIX, TARGET_LANDING_COUNT};
use crate::rng::{chacha_word, sample_range_spec, SeededRng};
use crate::skeleton::{skel_add_dead_end, skel_add_landing,
    skel_add_tunnel, skel_wf, ConnectorIdentifier, MazeSkeleton, SkelV};
use crate::trig::{rotate_spec, rotate_axis_angle};
use crate::vec3::{add_v, bounded, neg_v, normalize_spec, scale_v, unit_scaled, Vec3, V3};

verus! {

/// Coordinate budget one branch consumes: the longest tunnel
/// (`MAX_TUNNEL_LENGTH_FIX`) plus one unit of rounding slack.
pub const GEN_STEP: i64 = 3997696;

/// Lower bound of the branch-angle sample: the minimum bearing gap
/// `MIN_ANGLE_FIX` plus the fixed-point safety margin `ANGLE_MARGIN_FIX`.
pub const BRANCH_ANGLE_LO: i64 = 85656;

/// Upper bound of the branch-angle sample: 1.5 times the minimum gap.
pub const BRANCH_ANGLE_HI: i64 = 126517;

/// Cap on how many skeleton entries of one kind generation may create.
pub const GEN_SIZE_CAP: usize = 0x1000_0000;

/// The minimum angular separation, as seen from a landing's center, at
/// which two tunnel mouths on its circle do not overlap:
/// `2 * atan((TUNNEL_WIDTH / 2) / LANDING_RADIUS)` in fixed-point radians.
pub fn min_angle_between_tunnels() -> (r: i64)
    ensures
        r == MIN_ANGLE_FIX,
{
    MIN_ANGLE_FIX
}

/// Powers of two, for position and size budgets.
pub open spec fn pow2(n: nat) -> nat
    decreases n,
{
    if n == 0 {
        1
    } else {
        2 * pow2((n - 1) as nat)
    }
}

/// The two branch angles a new landing extends with: each is drawn from
/// `[BRANCH_ANGLE_LO, BRANCH_ANGLE_HI)`, the second offset from the first.
pub open spec fn branch_angles_model(seed: u64, pos: u64) -> (int, int) {
    let a1 = sample_range_spec(seed, pos, BRANCH_ANGLE_LO as int, BRANCH_ANGLE_HI as int);
    let a2 = a1 + sample_range_spec(
        seed,
        (pos + 1) as u64,
        BRANCH_ANGLE_LO as int,
        BRANCH_ANGLE_HI as int,
    );
    (a1, a2)
}

/// Draw the two branch angles of a landing.
pub fn get_landing_tunnel_angles(rng: &mut SeededRng) -> (r: (i64, i64))
    requires
        old(rng).pos() + 2 < u64::MAX,
    ensures
        (r.0 as int, r.1 as int) == branch_angles_model(old(rng).seed(), old(rng).pos()),
        final(rng).seed() == old(rng).seed(),
        final(rng).pos() == old(rng).pos() + 2,
        BRANCH_ANGLE_LO <= r.0 < BRANCH_ANGLE_HI,
        r.0 + BRANCH_ANGLE_LO <= r.1 < r.0 + BRANCH_ANGLE_HI,
{
    let a1 = rng.sample_range(BRANCH_ANGLE_LO, BRANCH_ANGLE_HI);
    let a2 = a1 + rng.sample_range(BRANCH_ANGLE_LO, BRANCH_ANGLE_HI);
    (a1, a2)
}

/// One branch of the expansion, as a value transform on the skeleton and
/// the stream position.  This is the generator's defining model: the
/// executable `extend_landing` returns exactly this.
pub open spec fn extend_model(
    seed: u64,
    s: SkelV,
    pos: u64,
    start_id: int,
    input_dir: V3,
    angle: int,
    depth: nat,
) -> (SkelV, u64)
    decreases depth,
{
    let landing_point = s.landings[start_id].point;
    let landing_up = s.landings[start_id].up;
    let dir = normalize_spec(rotate_spec(input_dir, landing_up, angle));
    let len = sample_range_spec(
        seed,
        pos,
        MIN_TUNNEL_LENGTH_FIX as int,
        MAX_TUNNEL_LENGTH_FIX as int,
    );
    let connector_point = add_v(landing_point, scale_v(len, dir));
    let twist = sample_range_spec(
        seed,
        (pos + 1) as u64,
        -MAX_TWIST_FIX as int,
        MAX_TWIST_FIX as int,
    );
    let connector_up = normalize_spec(rotate_spec(landing_up, dir, twist));
    let w = chacha_word(seed, (pos + 2) as u64);
    let dead_roll = if s.landings.len() > TARGET_LANDING_COUNT {
        (w as int) % 10 < 9
    } else {
        (w as int) % 10 < 1
    };
    if dead_roll || depth == 0 {
        let s1 = skel_add_dead_end(s, connector_point, connector_up);
        let s2 = skel_add_tunnel(
            s1,
            ConnectorIdentifier::Landing(start_id as usize),
            ConnectorIdentifier::DeadEnd(s.dead_ends.len() as usize),
        );
        (s2, (pos + 3) as u64)
    } else {
        let nl = s.landings.len() as int;
        let s1 = skel_add_landing(s, connector_point, connector_up);
        let s2 = skel_add_tunnel(
            s1,
            ConnectorIdentifier::Landing(start_id as usize),
            ConnectorIdentifier::Landing(nl as usize),
        );
        let new_input = normalize_spec(neg_v(dir));
        let angles = branch_angles_model(seed, (pos + 3) as u64);
        let r1 = extend_model(seed, s2, (pos + 5) as u64, nl, new_input, angles.0,
            (depth - 1) as nat);
        extend_model(seed, r1.0, r1.1, nl, new_input, angles.1, (depth - 1) as nat)
    }
}

/// Points and orientations of already-present nodes survive an expansion;
/// only tunnel lists change, and new nodes are appended.
pub open spec fn nodes_preserved(s0: SkelV, s1: SkelV) -> bool {
    &&& s1.landings.len() >= s0.landings.len()
    &&& s1.dead_ends.len() >= s0.dead_ends.len()
    &&& s1.tunnels.len() >= s0.tunnels.len()
    &&& forall|j: int|
        0 <= j < s0.landings.len() ==> (#[trigger] s1.landings[j]).id == s0.landings[j].id
            && s1.landings[j].point == s0.landings[j].point && s1.landings[j].up == s0.landings[
            j
        ].up
    &&& forall|j: int|
        0 <= j < s0.dead_ends.len() ==> (#[trigger] s1.dead_ends[j]).id == s0.dead_ends[j].id
            && s1.dead_ends[j].point == s0.dead_ends[j].point && s1.dead_ends[j].up
            == s0.dead_ends[j].up
}

/// Extend the maze outward from `start_landing` at the given bearing.
///
/// Recursion is capped at `depth`: a branch that reaches the cap closes
/// with a dead end, which bounds the otherwise only-probabilistic
/// expansion.  The result is exactly `extend_model` of the inputs.
#[verifier::rlimit(100)]
pub fn extend_landing(
    skel: &mut MazeSkeleton,
    rng: &mut SeededRng,
    start_landing: ConnectorIdentifier,
    input_direction: &Vec3,
    angle: i64,
    depth: u32,
)
    requires
        skel_wf(old(skel)@),
        start_landing matches ConnectorIdentifier::Landing(i) && (i as int) < old(
            skel,
        )@.landings.len(),
        unit_scaled(input_direction@),
        0 <= angle <= 2 * BRANCH_ANGLE_HI,
        depth <= MAX_RECURSION_DEPTH,
        bounded(
            old(skel)@.landings[start_landing->Landing_0 as int].point,
            GEN_LIMIT - (depth + 1) * GEN_STEP,
        ),
        old(rng).pos() + 8 * pow2(depth as nat) < u64::MAX - 8,
        old(skel)@.landings.len() + pow2((depth + 1) as nat) <= GEN_SIZE_CAP,
        old(skel)@.dead_ends.len() + pow2((depth + 1) as nat) <= GEN_SIZE_CAP,
        old(skel)@.tunnels.len() + pow2((depth + 1) as nat) <= GEN_SIZE_CAP,
    ensures
        skel_wf(final(skel)@),
        (final(skel)@, final(rng).pos()) == extend_model(
            old(rng).seed(),
            old(skel)@,
            old(rng).pos(),
            start_landing->Landing_0 as int,
            input_direction@,
            angle as int,
            depth as nat,
        ),
        final(rng).seed() == old(rng).seed(),
        old(rng).pos() < final(rng).pos(),
        final(rng).pos() <= old(rng).pos() + 8 * pow2(depth as nat) - 5,
        nodes_preserved(old(skel)@, final(skel)@),
        final(skel)@.landings.len() <= old(skel)@.landings.len() + pow2((depth + 1) as nat) - 1,
        final(skel)@.dead_ends.len() <= old(skel)@.dead_ends.len() + pow2((depth + 1) as nat) - 1,
        final(skel)@.tunnels.len() <= old(skel)@.tunnels.len() + pow2((depth + 1) as nat) - 1,
    decreases depth,
{
    let start_landing_id = match start_landing {
        ConnectorIdentifier::Landing(i) => i,
        ConnectorIdentifier::DeadEnd(_) => {
            // Excluded by the precondition: expansion always starts at a
            // landing, since dead ends have no further branches.
            proof {
                assert(false);
            }
            0
        },
    };
    proof {
        assert(skel.landings@[start_landing_id as int]@ == skel@.landings[
            start_landing_id as int]);
        assert(pow2((depth + 1) as nat) == 2 * pow2(depth as nat));
        assert(pow2(depth as nat) >= 1) by {
            lemma_pow2_pos(depth as nat);
        };
    }
    let landing_point = skel.landings[start_landing_id].point;
    let landing_up = skel.landings[start_landing_id].up;
    let connector_direction = rotate_axis_angle(input_direction, &landing_up, angle).normalize();
    let tunnel_length = rng.sample_range(MIN_TUNNEL_LENGTH_FIX, MAX_TUNNEL_LENGTH_FIX);
    let connector_vec = connector_direction.scale_dir(tunnel_length);
    let connector_point = landing_point.add(&connector_vec);
    let twist = rng.sample_range(-MAX_TWIST_FIX, MAX_TWIST_FIX);
    let connector_up = rotate_axis_angle(&landing_up, &connector_direction, twist).normalize();
    proof {
        assert(iabs(landing_point@.x) <= GEN_LIMIT - (depth + 1) * GEN_STEP);
        assert(iabs(connector_vec@.x) <= GEN_STEP);
        assert(iabs(connector_point@.x) <= iabs(landing_point@.x) + iabs(connector_vec@.x));
        assert(iabs(connector_point@.x) <= GEN_LIMIT - depth * GEN_STEP);
        assert(iabs(connector_point@.y) <= GEN_LIMIT - depth * GEN_STEP);
        assert(iabs(connector_point@.z) <= GEN_LIMIT - depth * GEN_STEP);
        assert(bounded(connector_point@, GEN_LIMIT as int));
    }
    let w = rng.next_word();
    let dead_roll = if skel.landings.len() > TARGET_LANDING_COUNT {
        w % 10 < 9
    } else {
        w % 10 < 1
    };
    if dead_roll || depth == 0 {
        let dead_end = skel.add_dead_end(connector_point, connector_up);
        let res = skel.add_tunnel(start_landing, dead_end);
        proof {
            assert(res is Ok);
        }
    } else {
        let new_landing = skel.add_landing(connector_point, connector_up);
        let res = skel.add_tunnel(start_landing, new_landing);
        proof {
            assert(res is Ok);
        }
        let new_input_direction = connector_direction.neg().normalize();
        let angles = get_landing_tunnel_angles(rng);
        proof {
            assert(pow2(depth as nat) == 2 * pow2((depth - 1) as nat));
            assert(pow2((depth - 1) as nat) >= 1) by {
                lemma_pow2_pos((depth - 1) as nat);
            };
        }
        extend_landing(skel, rng, new_landing, &new_input_direction, angles.0, depth - 1);
        extend_landing(skel, rng, new_landing, &new_input_direction, angles.1, depth - 1);
    }
}

pub proof fn lemma_pow2_pos(n: nat)
    ensures
        pow2(n) >= 1,
    decreases n,
{
    if n > 0 {
        lemma_pow2_pos((n - 1) as nat);
    }
}

/// One expansion adds exactly one tunnel to the landing it starts from,
/// and leaves every other already-existing landing's tunnel list
/// unchanged: recursive branches only ever attach to landings they
/// create.
pub proof fn lemma_extend_one_tunnel(
    seed: u64,
    s: SkelV,
    pos: u64,
    start_id: int,
    input_dir: V3,
    angle: int,
    depth: nat,
)
    requires
        0 <= start_id < s.landings.len(),
        s.landings.len() + pow2((depth + 1) as nat) < 0x4000_0000,
    ensures
        ({
            let r = extend_model(seed, s, pos, start_id, input_dir, angle, depth);
            &&& r.0.landings.len() >= s.landings.len()
            &&& r.0.landings.len() <= s.landings.len() + pow2((depth + 1) as nat) - 1
            &&& r.0.landings[start_id].tunnel_ids.len() == s.landings[
                start_id
            ].tunnel_ids.len() + 1
            &&& forall|j: int|
                0 <= j < s.landings.len() && j != start_id ==> (#[trigger] r.0.landings[
                    j
                ]).tunnel_ids == s.landings[j].tunnel_ids
        }),
    decreases depth,
{
    lemma_pow2_pos(depth);
    assert(pow2((depth + 1) as nat) == 2 * pow2(depth));
    let w = chacha_word(seed, (pos + 2) as u64);
    let dead_roll = if s.landings.len() > TARGET_LANDING_COUNT {
        (w as int) % 10 < 9
    } else {
        (w as int) % 10 < 1
    };
    if dead_roll || depth == 0 {
        // One tunnel is wired to the start landing and a fresh dead end.
    } else {
        let landing_point = s.landings[start_id].point;
        let landing_up = s.landings[start_id].up;
        let dir = normalize_spec(rotate_spec(input_dir, landing_up, angle));
        let len = sample_range_spec(
            seed,
            pos,
            MIN_TUNNEL_LENGTH_FIX as int,
            MAX_TUNNEL_LENGTH_FIX as int,
        );
        let connector_point = add_v(landing_point, scale_v(len, dir));
        let twist = sample_range_spec(
            seed,
            (pos + 1) as u64,
            -MAX_TWIST_FIX as int,
            MAX_TWIST_FIX as int,
        );
        let connector_up = normalize_spec(rotate_spec(landing_up, dir, twist));
        let nl = s.landings.len() as int;
        let s1 = skel_add_landing(s, connector_point, connector_up);
        let s2 = skel_add_tunnel(
            s1,
            ConnectorIdentifier::Landing(start_id as usize),
            ConnectorIdentifier::Landing(nl as usize),
        );
        let new_input = normalize_spec(neg_v(dir));
        let angles = branch_angles_model(seed, (pos + 3) as u64);
        assert(s2.landings.len() == s.landings.len() + 1);
        assert((start_id as usize) as int == start_id);
        assert((nl as usize) as int == nl);
        assert(s2.landings[start_id].tunnel_ids.len() == s.landings[start_id].tunnel_ids.len()
            + 1);
        lemma_pow2_pos((depth - 1) as nat);
        assert(pow2(depth) == 2 * pow2((depth - 1) as nat));
        lemma_extend_one_tunnel(seed, s2, (pos + 5) as u64, nl, new_input, angles.0,
            (depth - 1) as nat);
        let r1 = extend_model(seed, s2, (pos + 5) as u64, nl, new_input, angles.0,
            (depth - 1) as nat);
        lemma_extend_one_tunnel(seed, r1.0, r1.1, nl, new_input, angles.1, (depth - 1) as nat);
    }
}

/// Where the maze starts: the origin.
pub open spec fn start_point_v() -> V3 {
    V3 { x: 0, y: 0, z: 0 }
}

/// The start landing's vertical: the `y` axis.
pub open spec fn start_up_v() -> V3 {
    V3 { x: 0, y: SCALE as int, z: 0 }
}

/// The arbitrary first forward direction: the `x` axis.
pub open spec fn start_input_v() -> V3 {
    V3 { x: SCALE as int, y: 0, z: 0 }
}

/// The finished skeleton as a function of the seed alone: one landing at
/// the origin, extended three times at bearings `0`, `a1` and `a2`.
pub open spec fn skeleton_model(seed: u64, depth: nat) -> SkelV {
    let s0 = skel_add_landing(
        SkelV { landings: Seq::empty(), dead_ends: Seq::empty(), tunnels: Seq::empty() },
        start_point_v(),
        start_up_v(),
    );
    let r1 = extend_model(seed, s0, 0, 0, start_input_v(), 0, depth);
    let angles = branch_angles_model(seed, r1.1);
    let r2 = extend_model(seed, r1.0, (r1.1 + 2) as u64, 0, start_input_v(), angles.0, depth);
    let r3 = extend_model(seed, r2.0, r2.1, 0, start_input_v(), angles.1, depth);
    r3.0
}

/// Build the abstract maze for a seed.  Deterministic: the result is
/// exactly `skeleton_model(seed, MAX_RECURSION_DEPTH)`.
pub fn generate_skeleton(rng_seed: u32) -> (r: MazeSkeleton)
    ensures
        r@ == skeleton_model(rng_seed as u64, MAX_RECURSION_DEPTH as nat),
        skel_wf(r@),
        r@.landings.len() >= 1,
        r@.landings[0].point == start_point_v(),
        r@.landings[0].up == start_up_v(),
        r@.landings[0].tunnel_ids.len() == 3,
        r@.landings.len() < 0x800_0000,
        r@.dead_ends.len() < 0x800_0000,
        r@.tunnels.len() < 0x800_0000,
    {
    let mut rng = SeededRng::new(rng_seed as u64);
    let mut skel = MazeSkeleton::new();
    let start_point = Vec3::new(0, 0, 0);
    let start_up = Vec3::new(0, SCALE, 0);
    let input_direction = Vec3::new(SCALE, 0, 0);
    let start_landing = skel.add_landing(start_point, start_up);
    proof {
        lemma_pow2_val();
        assert(pow2((MAX_RECURSION_DEPTH + 1) as nat) == pow2(25));
        assert(pow2(MAX_RECURSION_DEPTH as nat) == pow2(24));
    }
    let ghost s0 = skel@;
    let ghost p0 = rng.pos();
    extend_landing(&mut skel, &mut rng, start_landing, &input_direction, 0, MAX_RECURSION_DEPTH);
    proof {
        lemma_extend_one_tunnel(rng_seed as u64, s0, p0, 0, input_direction@, 0,
            MAX_RECURSION_DEPTH as nat);
    }
    let angles = get_landing_tunnel_angles(&mut rng);
    let ghost s1 = skel@;
    let ghost p1 = rng.pos();
    extend_landing(
        &mut skel,
        &mut rng,
        start_landing,
        &input_direction,
        angles.0,
        MAX_RECURSION_DEPTH,
    );
    proof {
        lemma_extend_one_tunnel(rng_seed as u64, s1, p1, 0, input_direction@, angles.0 as int,
            MAX_RECURSION_DEPTH as nat);
    }
    let ghost s2 = skel@;
    let ghost p2 = rng.pos();
    extend_landing(
        &mut skel,
        &mut rng,
        start_landing,
        &input_direction,
        angles.1,
        MAX_RECURSION_DEPTH,
    );
    proof {
        lemma_extend_one_tunnel(rng_seed as u64, s2, p2, 0, input_direction@, angles.1 as int,
            MAX_RECURSION_DEPTH as nat);
    }
    skel
}

/// The budget constants, evaluated: `2^24` and `2^25`.
pub proof fn lemma_pow2_val()
    ensures
        pow2(24) == 0x100_0000,
        pow2(25) == 0x200_0000,
{
    reveal_with_fuel(pow2, 27);
}

} // verus!
