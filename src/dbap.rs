//! The inputs of distance-based amplitude panning: per-speaker blurred distances and zone
//! weights, and the proximity test used to skip distant speakers.
use vstd::prelude::*;

verus! {

/// A point in the plane, in millimetres.
#[derive(Clone, Copy, Debug, PartialEq, Eq, Structural)]
pub struct Point {
    pub x: i32,
    pub y: i32,
}

/// The squared Euclidean distance between two points, in square millimetres.
pub open spec fn distance_squared_spec(a: Point, b: Point) -> int {
    (a.x - b.x) * (a.x - b.x) + (a.y - b.y) * (a.y - b.y)
}

/// The squared distance between `a` and `b`.
pub fn distance_squared(a: Point, b: Point) -> (r: u128)
    ensures
        r == distance_squared_spec(a, b),
        r <= 2 * 0x1_0000_0000 * 0x1_0000_0000,
{
    let dx: i128 = a.x as i128 - b.x as i128;
    let dy: i128 = a.y as i128 - b.y as i128;
    assert(dx * dx <= 0x1_0000_0000 * 0x1_0000_0000) by (nonlinear_arith)
        requires -0x1_0000_0000 <= dx <= 0x1_0000_0000;
    assert(dy * dy <= 0x1_0000_0000 * 0x1_0000_0000) by (nonlinear_arith)
        requires -0x1_0000_0000 <= dy <= 0x1_0000_0000;
    assert(0 <= dx * dx && 0 <= dy * dy) by (nonlinear_arith);
    (dx * dx + dy * dy) as u128
}

/// The blur added to every distance so that a gain stays finite at a speaker's position, in
/// millimetres.
pub const DISTANCE_BLUR_MM: u64 = 100;

/// The distance within which a speaker counts as near a point, in millimetres.
pub const PROXIMITY_LIMIT_MM: u64 = 7000;

/// The full weight of a speaker, in thousandths.
pub const FULL_WEIGHT: u32 = 1000;

/// The squared blurred distance between `a` and `b`: `distance² + blur²`.
pub open spec fn blurred_distance_2_spec(a: Point, b: Point) -> int {
    distance_squared_spec(a, b) + DISTANCE_BLUR_MM * DISTANCE_BLUR_MM
}

/// Whether the two lists of installations share one.
pub open spec fn shares_installation(a: Seq<u32>, b: Seq<u32>) -> bool {
    exists|i: int, j: int| 0 <= i < a.len() && 0 <= j < b.len() && a[i] == b[j]
}

/// The weight of a speaker for a sound: full where the speaker serves one of the sound's
/// installations, none otherwise.
pub open spec fn dbap_weight_spec(sound: Seq<u32>, speaker: Seq<u32>) -> int {
    if shares_installation(sound, speaker) {
        FULL_WEIGHT as int
    } else {
        0
    }
}

/// Whether `b` lies within the proximity limit of `a`.
pub open spec fn in_proximity_spec(a: Point, b: Point) -> bool {
    distance_squared_spec(a, b) <= PROXIMITY_LIMIT_MM * PROXIMITY_LIMIT_MM
}

/// The squared blurred distance between `a` and `b`.
pub fn blurred_distance_2(a: Point, b: Point) -> (r: u128)
    ensures
        r == blurred_distance_2_spec(a, b),
{
    let d: u128 = distance_squared(a, b);
    let blur_2: u128 = (DISTANCE_BLUR_MM * DISTANCE_BLUR_MM) as u128;
    d + blur_2
}

/// The weight of a speaker serving `speaker` installations for a sound in `sound` ones.
pub fn dbap_weight(sound: &Vec<u32>, speaker: &Vec<u32>) -> (r: u32)
    ensures
        r == dbap_weight_spec(sound@, speaker@),
{
    let mut i: usize = 0;
    while i < sound.len()
        invariant
            i <= sound@.len(),
            forall|x: int, y: int|
                0 <= x < i && 0 <= y < speaker@.len() ==> sound@[x] != speaker@[y],
        decreases sound@.len() - i,
    {
        let mut j: usize = 0;
        while j < speaker.len()
            invariant
                i < sound@.len(),
                j <= speaker@.len(),
                forall|x: int, y: int|
                    0 <= x < i && 0 <= y < speaker@.len() ==> sound@[x] != speaker@[y],
                forall|y: int| 0 <= y < j ==> sound@[i as int] != speaker@[y],
            decreases speaker@.len() - j,
        {
            if sound[i] == speaker[j] {
                assert(shares_installation(sound@, speaker@)) by {
                    assert(sound@[i as int] == speaker@[j as int]);
                }
                return FULL_WEIGHT;
            }
            j = j + 1;
        }
        i = i + 1;
    }
    0
}

/// Whether the speaker at `speaker` is near enough to `point` to take part in its mix.
pub fn speaker_is_in_proximity(point: Point, speaker: Point) -> (r: bool)
    ensures
        r == in_proximity_spec(point, speaker),
{
    distance_squared(point, speaker) <= (PROXIMITY_LIMIT_MM as u128) * (PROXIMITY_LIMIT_MM as u128)
}

/// A speaker as distance-based amplitude panning sees it from one point.
#[derive(Clone, Copy, Debug, PartialEq, Eq, Structural)]
pub struct DbapSpeaker {
    /// The squared blurred distance to the point.
    pub distance_2: u128,
    /// The weight of the speaker, in thousandths.
    pub weight: u32,
}

/// The panning inputs of a sound channel at `point` in the installations `sound`, for each
/// speaker, given as its position and installations.
pub fn dbap_speakers(point: Point, sound: &Vec<u32>, speakers: &Vec<(Point, Vec<u32>)>) -> (r: Vec<
    DbapSpeaker,
>)
    ensures
        r@.len() == speakers@.len(),
        forall|i: int|
            0 <= i < speakers@.len() ==> #[trigger] r@[i] == (DbapSpeaker {
                distance_2: blurred_distance_2_spec(point, speakers@[i].0) as u128,
                weight: dbap_weight_spec(sound@, speakers@[i].1@) as u32,
            }),
{
    let mut r: Vec<DbapSpeaker> = Vec::new();
    let mut i: usize = 0;
    while i < speakers.len()
        invariant
            i <= speakers@.len(),
            r@.len() == i,
            forall|k: int|
                0 <= k < i ==> #[trigger] r@[k] == (DbapSpeaker {
                    distance_2: blurred_distance_2_spec(point, speakers@[k].0) as u128,
                    weight: dbap_weight_spec(sound@, speakers@[k].1@) as u32,
                }),
        decreases speakers@.len() - i,
    {
        let (p, zones) = &speakers[i];
        let s = DbapSpeaker { distance_2: blurred_distance_2(point, *p), weight: dbap_weight(sound, zones) };
        r.push(s);
        i = i + 1;
    }
    r
}

/// The indices of the speakers near `point`, in order.
pub fn speakers_in_proximity(point: Point, speakers: &Vec<Point>) -> (r: Vec<usize>)
    ensures
        forall|k: int| 0 <= k < r@.len() ==> #[trigger] r@[k] < speakers@.len(),
        forall|k: int| 0 <= k < r@.len() ==> in_proximity_spec(point, speakers@[#[trigger] r@[k] as int]),
        forall|i: int|
            0 <= i < speakers@.len() && in_proximity_spec(point, speakers@[i]) ==> r@.contains(
                i as usize,
            ),
        forall|a: int, b: int| 0 <= a < b < r@.len() ==> r@[a] < r@[b],
{
    let mut r: Vec<usize> = Vec::new();
    let mut i: usize = 0;
    while i < speakers.len()
        invariant
            i <= speakers@.len(),
            forall|k: int| 0 <= k < r@.len() ==> #[trigger] r@[k] < i,
            forall|k: int| 0 <= k < r@.len() ==> in_proximity_spec(point, speakers@[#[trigger] r@[k] as int]),
            forall|j: int|
                0 <= j < i && in_proximity_spec(point, speakers@[j]) ==> r@.contains(j as usize),
            forall|a: int, b: int| 0 <= a < b < r@.len() ==> r@[a] < r@[b],
        decreases speakers@.len() - i,
    {
        let ghost old_r = r@;
        if speaker_is_in_proximity(point, speakers[i]) {
            r.push(i);
            assert(r@[r@.len() - 1] == i);
            assert forall|j: int|
                0 <= j < i + 1 && in_proximity_spec(point, speakers@[j]) implies r@.contains(
                j as usize,
            ) by {
                if j < i {
                    let idx = choose|idx: int| 0 <= idx < old_r.len() && old_r[idx] == j as usize;
                    assert(r@[idx] == j as usize);
                }
            }
        }
        i = i + 1;
    }
    r
}

/// A sound at a speaker's exact position is at the smallest blurred distance that any speaker
/// can have, and that distance is still positive: its gain stays finite, and no speaker of the
/// same weight is nearer.
pub proof fn lemma_blur_at_speaker(p: Point, q: Point)
    ensures
        blurred_distance_2_spec(p, p) == DISTANCE_BLUR_MM * DISTANCE_BLUR_MM,
        blurred_distance_2_spec(p, p) > 0,
        blurred_distance_2_spec(p, p) <= blurred_distance_2_spec(p, q),
{
    assert(0 <= (p.x - q.x) * (p.x - q.x)) by (nonlinear_arith);
    assert(0 <= (p.y - q.y) * (p.y - q.y)) by (nonlinear_arith);
}

/// A speaker that serves none of a sound's installations weighs less than one that serves one
/// of them; at equal distances, its panning input is never the louder one.
pub proof fn lemma_disjoint_weight(sound: Seq<u32>, other: Seq<u32>, serving: Seq<u32>)
    requires
        !shares_installation(sound, other),
        shares_installation(sound, serving),
    ensures
        dbap_weight_spec(sound, other) == 0,
        dbap_weight_spec(sound, serving) == FULL_WEIGHT,
        dbap_weight_spec(sound, other) < dbap_weight_spec(sound, serving),
{
}

} // verus!
