//! The wire form of a clutter filter map, and the two halves of its
//! round-trip law: what was decoded encodes to the bytes that were read, and
//! what was encoded decodes to the map it encodes.

use vstd::prelude::*;
use crate::error::DecodeError;
use crate::messages::clutter::{
    azimuth_at, azimuths_at, clutter_map_at, count_at, elevation_at, elevations_at, zone_at,
    zones_at, ClutterLimits, ClutterMap, RangeZone,
};
use crate::wire::{
    holds, i16_at_of_i16_bytes, i16_bytes, i16_bytes_of_i16_at, u16_at_of_u16_bytes, u16_bytes,
    u16_bytes_of_u16_at,
};

verus! {

/// The four bytes of a range zone.
pub open spec fn zone_bytes(zone: RangeZone) -> Seq<u8> {
    i16_bytes(zone.opcode) + i16_bytes(zone.endrange)
}

/// The bytes of a run of range zones.
pub open spec fn zones_bytes(zones: Seq<RangeZone>) -> Seq<u8>
    decreases zones.len(),
{
    if zones.len() == 0 {
        Seq::empty()
    } else {
        zones_bytes(zones.drop_last()) + zone_bytes(zones.last())
    }
}

/// The bytes of an azimuth segment: its count, then its range zones.
pub open spec fn azimuth_bytes(azimuth: Seq<RangeZone>) -> Seq<u8> {
    u16_bytes(azimuth.len() as u16) + zones_bytes(azimuth)
}

/// The bytes of a run of azimuth segments.
pub open spec fn azimuths_bytes(azimuths: Seq<Seq<RangeZone>>) -> Seq<u8>
    decreases azimuths.len(),
{
    if azimuths.len() == 0 {
        Seq::empty()
    } else {
        azimuths_bytes(azimuths.drop_last()) + azimuth_bytes(azimuths.last())
    }
}

/// The bytes of an elevation segment: its count, then its azimuth segments.
pub open spec fn elevation_bytes(elevation: Seq<Seq<RangeZone>>) -> Seq<u8> {
    u16_bytes(elevation.len() as u16) + azimuths_bytes(elevation)
}

/// The bytes of a run of elevation segments.
pub open spec fn elevations_bytes(elevations: Seq<Seq<Seq<RangeZone>>>) -> Seq<u8>
    decreases elevations.len(),
{
    if elevations.len() == 0 {
        Seq::empty()
    } else {
        elevations_bytes(elevations.drop_last()) + elevation_bytes(elevations.last())
    }
}

/// The bytes of a clutter filter map: generation date and time, the count
/// of elevation segments, then the elevation segments.
pub open spec fn clutter_map_bytes(map: ClutterMap) -> Seq<u8> {
    i16_bytes(map.generation_date) + i16_bytes(map.generation_time) + u16_bytes(
        map.elevations.len() as u16,
    ) + elevations_bytes(map.elevations)
}

/// The number of bytes of an azimuth segment: 2 for its count and 4 for
/// each of its range zones.
pub open spec fn azimuth_len(azimuth: Seq<RangeZone>) -> int {
    2 + 4 * (azimuth.len() as int)
}

/// The number of bytes of a run of azimuth segments.
pub open spec fn azimuths_len(azimuths: Seq<Seq<RangeZone>>) -> int
    decreases azimuths.len(),
{
    if azimuths.len() == 0 {
        0
    } else {
        azimuths_len(azimuths.drop_last()) + azimuth_len(azimuths.last())
    }
}

/// The number of bytes of an elevation segment: 2 for its count, then its
/// azimuth segments.
pub open spec fn elevation_len(elevation: Seq<Seq<RangeZone>>) -> int {
    2 + azimuths_len(elevation)
}

/// The number of bytes of a run of elevation segments.
pub open spec fn elevations_len(elevations: Seq<Seq<Seq<RangeZone>>>) -> int
    decreases elevations.len(),
{
    if elevations.len() == 0 {
        0
    } else {
        elevations_len(elevations.drop_last()) + elevation_len(elevations.last())
    }
}

/// The number of bytes of a clutter filter map: 6 for its date, time and
/// count, then, for each elevation segment, 2 and, for each of its azimuth
/// segments, 2 and 4 for each range zone.
pub open spec fn clutter_map_len(map: ClutterMap) -> int {
    6 + elevations_len(map.elevations)
}

/// Whether an azimuth segment has no more range zones than `limits` allows.
pub open spec fn azimuth_within(azimuth: Seq<RangeZone>, limits: ClutterLimits) -> bool {
    azimuth.len() <= limits.max_range_zones
}

/// Whether an elevation segment and each of its azimuth segments has no more
/// elements than `limits` allows.
pub open spec fn elevation_within(elevation: Seq<Seq<RangeZone>>, limits: ClutterLimits) -> bool {
    &&& elevation.len() <= limits.max_azimuth_segments
    &&& forall|i: int| 0 <= i < elevation.len() ==> azimuth_within(#[trigger] elevation[i], limits)
}

/// Whether every count of `map` is within its ceiling in `limits`.
pub open spec fn map_within(map: ClutterMap, limits: ClutterLimits) -> bool {
    &&& map.elevations.len() <= limits.max_elevation_segments
    &&& forall|i: int|
        0 <= i < map.elevations.len() ==> elevation_within(#[trigger] map.elevations[i], limits)
}

proof fn zones_bytes_len(zones: Seq<RangeZone>)
    ensures
        zones_bytes(zones).len() == 4 * zones.len(),
    decreases zones.len(),
{
    if zones.len() > 0 {
        zones_bytes_len(zones.drop_last());
    }
}

proof fn azimuths_bytes_len(azimuths: Seq<Seq<RangeZone>>)
    ensures
        azimuths_bytes(azimuths).len() == azimuths_len(azimuths),
    decreases azimuths.len(),
{
    if azimuths.len() > 0 {
        azimuths_bytes_len(azimuths.drop_last());
        zones_bytes_len(azimuths.last());
    }
}

proof fn elevations_bytes_len(elevations: Seq<Seq<Seq<RangeZone>>>)
    ensures
        elevations_bytes(elevations).len() == elevations_len(elevations),
    decreases elevations.len(),
{
    if elevations.len() > 0 {
        elevations_bytes_len(elevations.drop_last());
        azimuths_bytes_len(elevations.last());
    }
}

/// The encoding of a map has the length that its counts add up to.
pub proof fn clutter_map_bytes_len(map: ClutterMap)
    ensures
        clutter_map_bytes(map).len() == clutter_map_len(map),
{
    elevations_bytes_len(map.elevations);
}

/// A stretch of a window is its first part followed by its second part.
proof fn stretch_splits(w: Seq<u8>, a: int, b: int, c: int)
    requires
        0 <= a <= b <= c <= w.len(),
    ensures
        w.subrange(a, c) == w.subrange(a, b) + w.subrange(b, c),
{
    assert(w.subrange(a, c) =~= w.subrange(a, b) + w.subrange(b, c));
}

/// Where a stretch of a window is `x` followed by `y`, its first part is `x`
/// and its second part is `y`.
proof fn stretch_parts(w: Seq<u8>, a: int, x: Seq<u8>, y: Seq<u8>)
    requires
        0 <= a,
        a + x.len() + y.len() <= w.len(),
        w.subrange(a, a + x.len() + y.len()) == x + y,
    ensures
        w.subrange(a, a + x.len()) == x,
        w.subrange(a + x.len(), a + x.len() + y.len()) == y,
{
    let whole = w.subrange(a, a + x.len() + y.len());
    assert forall|i: int| 0 <= i < x.len() implies w[a + i] == x[i] by {
        assert(whole[i] == (x + y)[i]);
    }
    assert forall|i: int| 0 <= i < y.len() implies w[a + x.len() + i] == y[i] by {
        assert(whole[x.len() + i] == (x + y)[x.len() + i]);
    }
    assert(w.subrange(a, a + x.len()) =~= x);
    assert(w.subrange(a + x.len(), a + x.len() + y.len()) =~= y);
}

proof fn zone_reencodes(w: Seq<u8>, at: int)
    requires
        zone_at(w, at) is Ok,
    ensures
        zone_at(w, at)->Ok_0.1 == at + 4,
        holds(w, at, 4),
        w.subrange(at, at + 4) == zone_bytes(zone_at(w, at)->Ok_0.0),
{
    i16_bytes_of_i16_at(w, at);
    i16_bytes_of_i16_at(w, at + 2);
    stretch_splits(w, at, at + 2, at + 4);
}

proof fn zones_reencode(w: Seq<u8>, at: int, n: nat)
    requires
        0 <= at <= w.len(),
        zones_at(w, at, n) is Ok,
    ensures
        zones_at(w, at, n)->Ok_0.0.len() == n,
        at <= zones_at(w, at, n)->Ok_0.1 <= w.len(),
        w.subrange(at, zones_at(w, at, n)->Ok_0.1) == zones_bytes(zones_at(w, at, n)->Ok_0.0),
    decreases n,
{
    if n == 0 {
        assert(w.subrange(at, at) =~= Seq::<u8>::empty());
    } else {
        let (before, mid) = zones_at(w, at, (n - 1) as nat)->Ok_0;
        let (zone, end) = zone_at(w, mid)->Ok_0;
        zones_reencode(w, at, (n - 1) as nat);
        zone_reencodes(w, mid);
        stretch_splits(w, at, mid, end);
        let zones = before.push(zone);
        assert(zones.drop_last() =~= before);
    }
}

proof fn azimuth_reencodes(w: Seq<u8>, at: int, limits: ClutterLimits)
    requires
        0 <= at,
        azimuth_at(w, at, limits) is Ok,
    ensures
        at <= azimuth_at(w, at, limits)->Ok_0.1 <= w.len(),
        azimuth_within(azimuth_at(w, at, limits)->Ok_0.0, limits),
        w.subrange(at, azimuth_at(w, at, limits)->Ok_0.1) == azimuth_bytes(
            azimuth_at(w, at, limits)->Ok_0.0,
        ),
{
    let (n, first) = count_at(w, at, limits.max_range_zones)->Ok_0;
    let (zones, end) = zones_at(w, first, n as nat)->Ok_0;
    zones_reencode(w, first, n as nat);
    u16_bytes_of_u16_at(w, at);
    stretch_splits(w, at, first, end);
}

proof fn azimuths_reencode(w: Seq<u8>, at: int, n: nat, limits: ClutterLimits)
    requires
        0 <= at <= w.len(),
        azimuths_at(w, at, n, limits) is Ok,
    ensures
        azimuths_at(w, at, n, limits)->Ok_0.0.len() == n,
        at <= azimuths_at(w, at, n, limits)->Ok_0.1 <= w.len(),
        forall|i: int|
            0 <= i < n ==> azimuth_within(
                #[trigger] azimuths_at(w, at, n, limits)->Ok_0.0[i],
                limits,
            ),
        w.subrange(at, azimuths_at(w, at, n, limits)->Ok_0.1) == azimuths_bytes(
            azimuths_at(w, at, n, limits)->Ok_0.0,
        ),
    decreases n,
{
    if n == 0 {
        assert(w.subrange(at, at) =~= Seq::<u8>::empty());
    } else {
        let (before, mid) = azimuths_at(w, at, (n - 1) as nat, limits)->Ok_0;
        let (azimuth, end) = azimuth_at(w, mid, limits)->Ok_0;
        azimuths_reencode(w, at, (n - 1) as nat, limits);
        azimuth_reencodes(w, mid, limits);
        stretch_splits(w, at, mid, end);
        let azimuths = before.push(azimuth);
        assert(azimuths.drop_last() =~= before);
    }
}

proof fn elevation_reencodes(w: Seq<u8>, at: int, limits: ClutterLimits)
    requires
        0 <= at,
        elevation_at(w, at, limits) is Ok,
    ensures
        at <= elevation_at(w, at, limits)->Ok_0.1 <= w.len(),
        elevation_within(elevation_at(w, at, limits)->Ok_0.0, limits),
        w.subrange(at, elevation_at(w, at, limits)->Ok_0.1) == elevation_bytes(
            elevation_at(w, at, limits)->Ok_0.0,
        ),
{
    let (n, first) = count_at(w, at, limits.max_azimuth_segments)->Ok_0;
    let (azimuths, end) = azimuths_at(w, first, n as nat, limits)->Ok_0;
    azimuths_reencode(w, first, n as nat, limits);
    u16_bytes_of_u16_at(w, at);
    stretch_splits(w, at, first, end);
}

proof fn elevations_reencode(w: Seq<u8>, at: int, n: nat, limits: ClutterLimits)
    requires
        0 <= at <= w.len(),
        elevations_at(w, at, n, limits) is Ok,
    ensures
        elevations_at(w, at, n, limits)->Ok_0.0.len() == n,
        at <= elevations_at(w, at, n, limits)->Ok_0.1 <= w.len(),
        forall|i: int|
            0 <= i < n ==> elevation_within(
                #[trigger] elevations_at(w, at, n, limits)->Ok_0.0[i],
                limits,
            ),
        w.subrange(at, elevations_at(w, at, n, limits)->Ok_0.1) == elevations_bytes(
            elevations_at(w, at, n, limits)->Ok_0.0,
        ),
    decreases n,
{
    if n == 0 {
        assert(w.subrange(at, at) =~= Seq::<u8>::empty());
    } else {
        let (before, mid) = elevations_at(w, at, (n - 1) as nat, limits)->Ok_0;
        let (elevation, end) = elevation_at(w, mid, limits)->Ok_0;
        elevations_reencode(w, at, (n - 1) as nat, limits);
        elevation_reencodes(w, mid, limits);
        stretch_splits(w, at, mid, end);
        let elevations = before.push(elevation);
        assert(elevations.drop_last() =~= before);
    }
}

/// Decoding, then encoding again, gives back the bytes that were read: where
/// a map can be decoded from `w` at `at`, the cursor ends inside the window,
/// it has moved by the length that the counts of the map add up to, the
/// bytes between the two cursors are the encoding of the map, and every
/// count of the map is within its ceiling.
pub proof fn decoded_map_reencodes(w: Seq<u8>, at: int, limits: ClutterLimits)
    requires
        0 <= at,
        clutter_map_at(w, at, limits) is Ok,
    ensures
        at <= clutter_map_at(w, at, limits)->Ok_0.1 <= w.len(),
        clutter_map_at(w, at, limits)->Ok_0.1 == at + clutter_map_len(
            clutter_map_at(w, at, limits)->Ok_0.0,
        ),
        map_within(clutter_map_at(w, at, limits)->Ok_0.0, limits),
        w.subrange(at, clutter_map_at(w, at, limits)->Ok_0.1) == clutter_map_bytes(
            clutter_map_at(w, at, limits)->Ok_0.0,
        ),
{
    let (n, first) = count_at(w, at + 4, limits.max_elevation_segments)->Ok_0;
    let (elevations, end) = elevations_at(w, first, n as nat, limits)->Ok_0;
    elevations_reencode(w, first, n as nat, limits);
    i16_bytes_of_i16_at(w, at);
    i16_bytes_of_i16_at(w, at + 2);
    u16_bytes_of_u16_at(w, at + 4);
    stretch_splits(w, at, at + 2, at + 4);
    stretch_splits(w, at, at + 4, at + 6);
    stretch_splits(w, at, at + 6, end);
    clutter_map_bytes_len(clutter_map_at(w, at, limits)->Ok_0.0);
}

proof fn zone_decodes(w: Seq<u8>, at: int, zone: RangeZone)
    requires
        0 <= at,
        at + 4 <= w.len(),
        w.subrange(at, at + 4) == zone_bytes(zone),
    ensures
        zone_at(w, at) == Ok::<(RangeZone, int), DecodeError>((zone, at + 4)),
{
    stretch_parts(w, at, i16_bytes(zone.opcode), i16_bytes(zone.endrange));
    i16_at_of_i16_bytes(w, at, zone.opcode);
    i16_at_of_i16_bytes(w, at + 2, zone.endrange);
}

proof fn zones_decode(w: Seq<u8>, at: int, zones: Seq<RangeZone>)
    requires
        0 <= at,
        at + zones_bytes(zones).len() <= w.len(),
        w.subrange(at, at + zones_bytes(zones).len()) == zones_bytes(zones),
    ensures
        zones_at(w, at, zones.len()) == Ok::<(Seq<RangeZone>, int), DecodeError>(
            (zones, at + zones_bytes(zones).len()),
        ),
    decreases zones.len(),
{
    if zones.len() == 0 {
        assert(zones =~= Seq::<RangeZone>::empty());
    } else {
        let before = zones.drop_last();
        let last = zones.last();
        stretch_parts(w, at, zones_bytes(before), zone_bytes(last));
        zones_decode(w, at, before);
        zone_decodes(w, at + zones_bytes(before).len(), last);
        assert(before.push(last) =~= zones);
    }
}

proof fn azimuth_decodes(w: Seq<u8>, at: int, azimuth: Seq<RangeZone>, limits: ClutterLimits)
    requires
        0 <= at,
        azimuth_within(azimuth, limits),
        at + azimuth_bytes(azimuth).len() <= w.len(),
        w.subrange(at, at + azimuth_bytes(azimuth).len()) == azimuth_bytes(azimuth),
    ensures
        azimuth_at(w, at, limits) == Ok::<(Seq<RangeZone>, int), DecodeError>(
            (azimuth, at + azimuth_bytes(azimuth).len()),
        ),
{
    let count = azimuth.len() as u16;
    stretch_parts(w, at, u16_bytes(count), zones_bytes(azimuth));
    u16_at_of_u16_bytes(w, at, count);
    zones_decode(w, at + 2, azimuth);
}

proof fn azimuths_decode(w: Seq<u8>, at: int, azimuths: Seq<Seq<RangeZone>>, limits: ClutterLimits)
    requires
        0 <= at,
        forall|i: int| 0 <= i < azimuths.len() ==> azimuth_within(#[trigger] azimuths[i], limits),
        at + azimuths_bytes(azimuths).len() <= w.len(),
        w.subrange(at, at + azimuths_bytes(azimuths).len()) == azimuths_bytes(azimuths),
    ensures
        azimuths_at(w, at, azimuths.len(), limits) == Ok::<
            (Seq<Seq<RangeZone>>, int),
            DecodeError,
        >((azimuths, at + azimuths_bytes(azimuths).len())),
    decreases azimuths.len(),
{
    if azimuths.len() == 0 {
        assert(azimuths =~= Seq::<Seq<RangeZone>>::empty());
    } else {
        let before = azimuths.drop_last();
        let last = azimuths.last();
        stretch_parts(w, at, azimuths_bytes(before), azimuth_bytes(last));
        azimuths_decode(w, at, before, limits);
        azimuth_decodes(w, at + azimuths_bytes(before).len(), last, limits);
        assert(before.push(last) =~= azimuths);
    }
}

proof fn elevation_decodes(
    w: Seq<u8>,
    at: int,
    elevation: Seq<Seq<RangeZone>>,
    limits: ClutterLimits,
)
    requires
        0 <= at,
        elevation_within(elevation, limits),
        at + elevation_bytes(elevation).len() <= w.len(),
        w.subrange(at, at + elevation_bytes(elevation).len()) == elevation_bytes(elevation),
    ensures
        elevation_at(w, at, limits) == Ok::<(Seq<Seq<RangeZone>>, int), DecodeError>(
            (elevation, at + elevation_bytes(elevation).len()),
        ),
{
    let count = elevation.len() as u16;
    stretch_parts(w, at, u16_bytes(count), azimuths_bytes(elevation));
    u16_at_of_u16_bytes(w, at, count);
    azimuths_decode(w, at + 2, elevation, limits);
}

proof fn elevations_decode(
    w: Seq<u8>,
    at: int,
    elevations: Seq<Seq<Seq<RangeZone>>>,
    limits: ClutterLimits,
)
    requires
        0 <= at,
        forall|i: int|
            0 <= i < elevations.len() ==> elevation_within(#[trigger] elevations[i], limits),
        at + elevations_bytes(elevations).len() <= w.len(),
        w.subrange(at, at + elevations_bytes(elevations).len()) == elevations_bytes(elevations),
    ensures
        elevations_at(w, at, elevations.len(), limits) == Ok::<
            (Seq<Seq<Seq<RangeZone>>>, int),
            DecodeError,
        >((elevations, at + elevations_bytes(elevations).len())),
    decreases elevations.len(),
{
    if elevations.len() == 0 {
        assert(elevations =~= Seq::<Seq<Seq<RangeZone>>>::empty());
    } else {
        let before = elevations.drop_last();
        let last = elevations.last();
        stretch_parts(w, at, elevations_bytes(before), elevation_bytes(last));
        elevations_decode(w, at, before, limits);
        elevation_decodes(w, at + elevations_bytes(before).len(), last, limits);
        assert(before.push(last) =~= elevations);
    }
}

/// Encoding, then decoding, gives back the map: where the bytes of `w` from
/// `at` on are the encoding of a map whose counts are within their ceilings,
/// decoding at `at` gives that map, and the cursor ends right after the last
/// byte of the encoding.
pub proof fn encoded_map_decodes(w: Seq<u8>, at: int, map: ClutterMap, limits: ClutterLimits)
    requires
        0 <= at,
        map_within(map, limits),
        at + clutter_map_bytes(map).len() <= w.len(),
        w.subrange(at, at + clutter_map_bytes(map).len()) == clutter_map_bytes(map),
    ensures
        clutter_map_at(w, at, limits) == Ok::<(ClutterMap, int), DecodeError>(
            (map, at + clutter_map_bytes(map).len()),
        ),
{
    let date = i16_bytes(map.generation_date);
    let time = i16_bytes(map.generation_time);
    let count = map.elevations.len() as u16;
    let rest = elevations_bytes(map.elevations);
    stretch_parts(w, at, date + time + u16_bytes(count), rest);
    stretch_parts(w, at, date + time, u16_bytes(count));
    stretch_parts(w, at, date, time);
    i16_at_of_i16_bytes(w, at, map.generation_date);
    i16_at_of_i16_bytes(w, at + 2, map.generation_time);
    u16_at_of_u16_bytes(w, at + 4, count);
    elevations_decode(w, at + 6, map.elevations, limits);
}

/// A window that holds the encoding of a map and nothing else is decoded to
/// its last byte: the cursor ends at the length of the window, which is the
/// length that the counts of the map add up to, with no byte left over and
/// none read past the end.
pub proof fn whole_window_is_consumed(map: ClutterMap, limits: ClutterLimits)
    requires
        map_within(map, limits),
    ensures
        clutter_map_at(clutter_map_bytes(map), 0, limits) == Ok::<(ClutterMap, int), DecodeError>(
            (map, clutter_map_bytes(map).len() as int),
        ),
        clutter_map_bytes(map).len() == clutter_map_len(map),
{
    clutter_map_bytes_len(map);
    let w = clutter_map_bytes(map);
    assert(w.subrange(0, w.len() as int) =~= w);
    encoded_map_decodes(w, 0, map, limits);
}

} // verus!
