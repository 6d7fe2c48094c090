//! The clutter filter map (message type 15): a structure of three nested
//! levels whose sizes are all read from the stream.
//!
//! The map opens with its generation date and time and the number of
//! elevation segments. Each elevation segment opens with the number of its
//! azimuth segments, each azimuth segment with the number of its range
//! zones, and a range zone is an operation code and an end range. Nothing
//! says where an element starts but the end of the one before it, so one
//! cursor runs through all three levels.

use vstd::prelude::*;
use crate::error::DecodeError;
use crate::messages::clutter_encoding::{
    clutter_map_bytes, clutter_map_len, decoded_map_reencodes, map_within,
};
use crate::wire::{holds, i16_at, read_i16, read_u16, truncated, u16_at};

verus! {

/// One range zone of an azimuth segment: what the clutter filter does, up to
/// which range.
#[derive(Debug, Clone, Copy, PartialEq, Eq, Structural)]
pub struct RangeZone {
    pub opcode: i16,
    pub endrange: i16,
}

/// One azimuth segment: the range zones along one azimuth, in the order in
/// which they were read. `num_rangezones` is the count that preceded them.
#[derive(Debug, Clone, PartialEq, Eq)]
pub struct AzimuthSegment {
    pub num_rangezones: u16,
    pub range_zones: Vec<RangeZone>,
}

/// One elevation segment: its azimuth segments, in the order in which they
/// were read.
#[derive(Debug, Clone, PartialEq, Eq)]
pub struct ElevationSegment {
    pub azimuth_segments: Vec<AzimuthSegment>,
}

/// The clutter filter map of one volume. `num_elevation_segments` is the
/// count that preceded the elevation segments.
#[derive(Debug, Clone, PartialEq, Eq)]
pub struct ClutterFilterMapMetadata {
    pub map_generation_date: i16,
    pub map_generation_time: i16,
    pub num_elevation_segments: u16,
    pub elevation_segments: Vec<ElevationSegment>,
}

/// The largest counts that a decoder accepts, one for each level of the
/// map. A count above its ceiling is taken for corruption before anything is
/// allocated for it.
#[derive(Debug, Clone, Copy, PartialEq, Eq, Structural)]
pub struct ClutterLimits {
    pub max_elevation_segments: u16,
    pub max_azimuth_segments: u16,
    pub max_range_zones: u16,
}

impl Default for ClutterLimits {
    /// The sizes of the interface: up to 5 elevation segments of up to 360
    /// azimuth segments of up to 20 range zones.
    fn default() -> (limits: ClutterLimits)
        ensures
            limits == (ClutterLimits {
                max_elevation_segments: 5,
                max_azimuth_segments: 360,
                max_range_zones: 20,
            }),
    {
        ClutterLimits { max_elevation_segments: 5, max_azimuth_segments: 360, max_range_zones: 20 }
    }
}

/// The mathematical content of a clutter filter map: per elevation segment
/// and azimuth segment, the sequence of range zones.
pub struct ClutterMap {
    pub generation_date: i16,
    pub generation_time: i16,
    pub elevations: Seq<Seq<Seq<RangeZone>>>,
}

impl View for AzimuthSegment {
    type V = Seq<RangeZone>;

    open spec fn view(&self) -> Seq<RangeZone> {
        self.range_zones@
    }
}

impl View for ElevationSegment {
    type V = Seq<Seq<RangeZone>>;

    open spec fn view(&self) -> Seq<Seq<RangeZone>> {
        azimuth_views(self.azimuth_segments@)
    }
}

impl View for ClutterFilterMapMetadata {
    type V = ClutterMap;

    open spec fn view(&self) -> ClutterMap {
        ClutterMap {
            generation_date: self.map_generation_date,
            generation_time: self.map_generation_time,
            elevations: elevation_views(self.elevation_segments@),
        }
    }
}

/// The contents of `segments`, in order.
pub open spec fn azimuth_views(segments: Seq<AzimuthSegment>) -> Seq<Seq<RangeZone>> {
    Seq::new(segments.len(), |i: int| segments[i]@)
}

/// The contents of `segments`, in order.
pub open spec fn elevation_views(segments: Seq<ElevationSegment>) -> Seq<Seq<Seq<RangeZone>>> {
    Seq::new(segments.len(), |i: int| segments[i]@)
}

impl AzimuthSegment {
    /// The invariant of an azimuth segment: it holds as many range zones as
    /// its count says.
    pub open spec fn well_formed(&self) -> bool {
        self.num_rangezones == self.range_zones@.len()
    }
}

impl ElevationSegment {
    /// The invariant of an elevation segment: its azimuth segments are
    /// well-formed, and there are no more of them than a count can say.
    pub open spec fn well_formed(&self) -> bool {
        &&& self.azimuth_segments@.len() <= u16::MAX
        &&& forall|i: int|
            0 <= i < self.azimuth_segments@.len() ==> (
            #[trigger] self.azimuth_segments@[i]).well_formed()
    }
}

impl ClutterFilterMapMetadata {
    /// The invariant of a map: it holds as many elevation segments as its
    /// count says, and each of them is well-formed.
    pub open spec fn well_formed(&self) -> bool {
        &&& self.num_elevation_segments == self.elevation_segments@.len()
        &&& forall|i: int|
            0 <= i < self.elevation_segments@.len() ==> (
            #[trigger] self.elevation_segments@[i]).well_formed()
    }
}

/// The count at `at`, or the fault that reading it is: the window ends
/// inside it, or it is above `ceiling`.
pub open spec fn count_at(w: Seq<u8>, at: int, ceiling: u16) -> Result<(u16, int), DecodeError> {
    if !holds(w, at, 2) {
        Err(truncated(at as usize, 2))
    } else if u16_at(w, at) > ceiling {
        Err(DecodeError::CountOutOfRange { offset: at as usize, count: u16_at(w, at), ceiling })
    } else {
        Ok((u16_at(w, at), at + 2))
    }
}

/// The range zone at `at` and the position after it.
pub open spec fn zone_at(w: Seq<u8>, at: int) -> Result<(RangeZone, int), DecodeError> {
    if !holds(w, at, 2) {
        Err(truncated(at as usize, 2))
    } else if !holds(w, at + 2, 2) {
        Err(truncated((at + 2) as usize, 2))
    } else {
        Ok((RangeZone { opcode: i16_at(w, at), endrange: i16_at(w, at + 2) }, at + 4))
    }
}

/// The `n` range zones that follow one another from `at` on, and the
/// position after the last of them.
pub open spec fn zones_at(w: Seq<u8>, at: int, n: nat) -> Result<(Seq<RangeZone>, int), DecodeError>
    decreases n,
{
    if n == 0 {
        Ok((Seq::empty(), at))
    } else {
        match zones_at(w, at, (n - 1) as nat) {
            Err(e) => Err(e),
            Ok((zones, mid)) => match zone_at(w, mid) {
                Err(e) => Err(e),
                Ok((zone, end)) => Ok((zones.push(zone), end)),
            },
        }
    }
}

/// The azimuth segment at `at`: its count of range zones, then that many
/// range zones.
pub open spec fn azimuth_at(w: Seq<u8>, at: int, limits: ClutterLimits) -> Result<
    (Seq<RangeZone>, int),
    DecodeError,
> {
    match count_at(w, at, limits.max_range_zones) {
        Err(e) => Err(e),
        Ok((n, first)) => zones_at(w, first, n as nat),
    }
}

/// The `n` azimuth segments that follow one another from `at` on.
pub open spec fn azimuths_at(w: Seq<u8>, at: int, n: nat, limits: ClutterLimits) -> Result<
    (Seq<Seq<RangeZone>>, int),
    DecodeError,
>
    decreases n,
{
    if n == 0 {
        Ok((Seq::empty(), at))
    } else {
        match azimuths_at(w, at, (n - 1) as nat, limits) {
            Err(e) => Err(e),
            Ok((azimuths, mid)) => match azimuth_at(w, mid, limits) {
                Err(e) => Err(e),
                Ok((azimuth, end)) => Ok((azimuths.push(azimuth), end)),
            },
        }
    }
}

/// The elevation segment at `at`: its count of azimuth segments, then that
/// many azimuth segments.
pub open spec fn elevation_at(w: Seq<u8>, at: int, limits: ClutterLimits) -> Result<
    (Seq<Seq<RangeZone>>, int),
    DecodeError,
> {
    match count_at(w, at, limits.max_azimuth_segments) {
        Err(e) => Err(e),
        Ok((n, first)) => azimuths_at(w, first, n as nat, limits),
    }
}

/// The `n` elevation segments that follow one another from `at` on.
pub open spec fn elevations_at(w: Seq<u8>, at: int, n: nat, limits: ClutterLimits) -> Result<
    (Seq<Seq<Seq<RangeZone>>>, int),
    DecodeError,
>
    decreases n,
{
    if n == 0 {
        Ok((Seq::empty(), at))
    } else {
        match elevations_at(w, at, (n - 1) as nat, limits) {
            Err(e) => Err(e),
            Ok((elevations, mid)) => match elevation_at(w, mid, limits) {
                Err(e) => Err(e),
                Ok((elevation, end)) => Ok((elevations.push(elevation), end)),
            },
        }
    }
}

/// The clutter filter map at `at` and the position after its last byte: the
/// generation date and time, the count of elevation segments, then that many
/// elevation segments. Where the map cannot be read, the fault of the first
/// read that fails.
pub open spec fn clutter_map_at(w: Seq<u8>, at: int, limits: ClutterLimits) -> Result<
    (ClutterMap, int),
    DecodeError,
> {
    if !holds(w, at, 2) {
        Err(truncated(at as usize, 2))
    } else if !holds(w, at + 2, 2) {
        Err(truncated((at + 2) as usize, 2))
    } else {
        match count_at(w, at + 4, limits.max_elevation_segments) {
            Err(e) => Err(e),
            Ok((n, first)) => match elevations_at(w, first, n as nat, limits) {
                Err(e) => Err(e),
                Ok((elevations, end)) => Ok(
                    (
                        ClutterMap {
                            generation_date: i16_at(w, at),
                            generation_time: i16_at(w, at + 2),
                            elevations,
                        },
                        end,
                    ),
                ),
            },
        }
    }
}

/// Once the run of range zones has met a fault, reading further zones meets
/// the same fault.
proof fn zones_fault_stays(w: Seq<u8>, at: int, i: nat, n: nat)
    requires
        i <= n,
        zones_at(w, at, i) is Err,
    ensures
        zones_at(w, at, n) == zones_at(w, at, i),
    decreases n - i,
{
    if i < n {
        zones_fault_stays(w, at, i, (n - 1) as nat);
    }
}

/// Once the run of azimuth segments has met a fault, reading further ones
/// meets the same fault.
proof fn azimuths_fault_stays(w: Seq<u8>, at: int, i: nat, n: nat, limits: ClutterLimits)
    requires
        i <= n,
        azimuths_at(w, at, i, limits) is Err,
    ensures
        azimuths_at(w, at, n, limits) == azimuths_at(w, at, i, limits),
    decreases n - i,
{
    if i < n {
        azimuths_fault_stays(w, at, i, (n - 1) as nat, limits);
    }
}

/// Once the run of elevation segments has met a fault, reading further ones
/// meets the same fault.
proof fn elevations_fault_stays(w: Seq<u8>, at: int, i: nat, n: nat, limits: ClutterLimits)
    requires
        i <= n,
        elevations_at(w, at, i, limits) is Err,
    ensures
        elevations_at(w, at, n, limits) == elevations_at(w, at, i, limits),
    decreases n - i,
{
    if i < n {
        elevations_fault_stays(w, at, i, (n - 1) as nat, limits);
    }
}

/// Reads the count at `at` and holds it against `ceiling`.
fn read_count(window: &[u8], at: usize, ceiling: u16) -> (r: Result<(u16, usize), DecodeError>)
    ensures
        match r {
            Ok((n, next)) => count_at(window@, at as int, ceiling) == Ok::<(u16, int), DecodeError>(
                (n, next as int),
            ),
            Err(e) => count_at(window@, at as int, ceiling) == Err::<(u16, int), DecodeError>(e),
        },
{
    let count: u16 = match read_u16(window, at) {
        Ok(count) => count,
        Err(e) => {
            return Err(e);
        },
    };
    if count > ceiling {
        return Err(DecodeError::CountOutOfRange { offset: at, count, ceiling });
    }
    Ok((count, at + 2))
}

impl RangeZone {
    /// A range zone with operation code 0 and end range 0.
    pub fn new() -> (zone: RangeZone)
        ensures
            zone == (RangeZone { opcode: 0, endrange: 0 }),
    {
        RangeZone { opcode: 0, endrange: 0 }
    }

    /// Decodes the range zone at `cursor`: the operation code, then the end
    /// range, two bytes each. Returns it with the cursor moved by 4.
    ///
    /// Fails with `Truncated` at the first of the two fields that the window
    /// does not hold.
    pub fn decode(window: &[u8], cursor: usize) -> (r: Result<(RangeZone, usize), DecodeError>)
        ensures
            match r {
                Ok((zone, end)) => zone_at(window@, cursor as int) == Ok::<
                    (RangeZone, int),
                    DecodeError,
                >((zone, end as int)),
                Err(e) => zone_at(window@, cursor as int) == Err::<(RangeZone, int), DecodeError>(e),
            },
    {
        let opcode: i16 = match read_i16(window, cursor) {
            Ok(v) => v,
            Err(e) => {
                return Err(e);
            },
        };
        let endrange: i16 = match read_i16(window, cursor + 2) {
            Ok(v) => v,
            Err(e) => {
                return Err(e);
            },
        };
        Ok((RangeZone { opcode, endrange }, cursor + 4))
    }
}

impl AzimuthSegment {
    /// The azimuth segment that holds `range_zones`, with the count that
    /// goes with them, or `None` where there are more zones than a count can
    /// say.
    pub fn new(range_zones: Vec<RangeZone>) -> (r: Option<AzimuthSegment>)
        ensures
            match r {
                Some(segment) => range_zones@.len() <= u16::MAX && segment.well_formed()
                    && segment.range_zones == range_zones,
                None => range_zones@.len() > u16::MAX,
            },
    {
        let len: usize = range_zones.len();
        if len > 0xffff {
            None
        } else {
            Some(AzimuthSegment { num_rangezones: len as u16, range_zones })
        }
    }

    /// Decodes the azimuth segment at `cursor`: the count of its range
    /// zones, then that many range zones. Returns it with the cursor moved
    /// past the last of them.
    ///
    /// Fails with `Truncated` at the first read that the window cannot
    /// serve, and with `CountOutOfRange` when the count is above
    /// `limits.max_range_zones`.
    pub fn decode(window: &[u8], cursor: usize, limits: &ClutterLimits) -> (r: Result<
        (AzimuthSegment, usize),
        DecodeError,
    >)
        ensures
            match r {
                Ok((segment, end)) => azimuth_at(window@, cursor as int, *limits) == Ok::<
                    (Seq<RangeZone>, int),
                    DecodeError,
                >((segment@, end as int)) && segment.well_formed(),
                Err(e) => azimuth_at(window@, cursor as int, *limits) == Err::<
                    (Seq<RangeZone>, int),
                    DecodeError,
                >(e),
            },
    {
        let (count, first) = match read_count(window, cursor, limits.max_range_zones) {
            Ok(read) => read,
            Err(e) => {
                return Err(e);
            },
        };
        let mut range_zones: Vec<RangeZone> = Vec::new();
        let mut at: usize = first;
        let mut i: u16 = 0;
        while i < count
            invariant
                i <= count,
                range_zones@.len() == i,
                count_at(window@, cursor as int, limits.max_range_zones) == Ok::<
                    (u16, int),
                    DecodeError,
                >((count, first as int)),
                zones_at(window@, first as int, i as nat) == Ok::<
                    (Seq<RangeZone>, int),
                    DecodeError,
                >((range_zones@, at as int)),
            decreases count - i,
        {
            match RangeZone::decode(window, at) {
                Ok((zone, next)) => {
                    range_zones.push(zone);
                    at = next;
                    i = i + 1;
                },
                Err(e) => {
                    proof {
                        zones_fault_stays(window@, first as int, (i + 1) as nat, count as nat);
                    }
                    return Err(e);
                },
            }
        }
        Ok((AzimuthSegment { num_rangezones: count, range_zones }, at))
    }
}

impl ElevationSegment {
    /// Decodes the elevation segment at `cursor`: the count of its azimuth
    /// segments, then that many azimuth segments. Returns it with the cursor
    /// moved past the last of them.
    ///
    /// Fails with `Truncated` at the first read that the window cannot
    /// serve, and with `CountOutOfRange` at the first count that is above
    /// its ceiling in `limits`.
    pub fn decode(window: &[u8], cursor: usize, limits: &ClutterLimits) -> (r: Result<
        (ElevationSegment, usize),
        DecodeError,
    >)
        ensures
            match r {
                Ok((segment, end)) => elevation_at(window@, cursor as int, *limits) == Ok::<
                    (Seq<Seq<RangeZone>>, int),
                    DecodeError,
                >((segment@, end as int)) && segment.well_formed(),
                Err(e) => elevation_at(window@, cursor as int, *limits) == Err::<
                    (Seq<Seq<RangeZone>>, int),
                    DecodeError,
                >(e),
            },
    {
        let (count, first) = match read_count(window, cursor, limits.max_azimuth_segments) {
            Ok(read) => read,
            Err(e) => {
                return Err(e);
            },
        };
        let mut azimuth_segments: Vec<AzimuthSegment> = Vec::new();
        let mut at: usize = first;
        let mut i: u16 = 0;
        assert(azimuth_views(azimuth_segments@) =~= Seq::empty());
        while i < count
            invariant
                i <= count,
                azimuth_segments@.len() == i,
                count_at(window@, cursor as int, limits.max_azimuth_segments) == Ok::<
                    (u16, int),
                    DecodeError,
                >((count, first as int)),
                azimuths_at(window@, first as int, i as nat, *limits) == Ok::<
                    (Seq<Seq<RangeZone>>, int),
                    DecodeError,
                >((azimuth_views(azimuth_segments@), at as int)),
                forall|k: int|
                    0 <= k < azimuth_segments@.len() ==> (
                    #[trigger] azimuth_segments@[k]).well_formed(),
            decreases count - i,
        {
            match AzimuthSegment::decode(window, at, limits) {
                Ok((segment, next)) => {
                    let ghost before = azimuth_views(azimuth_segments@);
                    azimuth_segments.push(segment);
                    assert(azimuth_views(azimuth_segments@) =~= before.push(segment@));
                    at = next;
                    i = i + 1;
                },
                Err(e) => {
                    proof {
                        azimuths_fault_stays(
                            window@,
                            first as int,
                            (i + 1) as nat,
                            count as nat,
                            *limits,
                        );
                    }
                    return Err(e);
                },
            }
        }
        Ok((ElevationSegment { azimuth_segments }, at))
    }
}

impl ClutterFilterMapMetadata {
    /// Decodes the clutter filter map that starts at `cursor` in `window`
    /// and returns it with the cursor moved past its last byte.
    ///
    /// The window is the payload of the message, joined from all its
    /// records where the message has more than one. Every count is read
    /// from the stream just before the elements that it counts, and nothing
    /// is sized before its count is known.
    ///
    /// Fails with `Truncated` at the first read that the window cannot
    /// serve, and with `CountOutOfRange` at the first count that is above
    /// its ceiling in `limits`. A map that is returned is well-formed, the
    /// bytes from `cursor` to the returned cursor are its encoding, and the
    /// cursor has moved by 6, plus 2 for each elevation segment, 2 for each
    /// azimuth segment and 4 for each range zone.
    pub fn decode(window: &[u8], cursor: usize, limits: &ClutterLimits) -> (r: Result<
        (ClutterFilterMapMetadata, usize),
        DecodeError,
    >)
        ensures
            match r {
                Ok((map, end)) => clutter_map_at(window@, cursor as int, *limits) == Ok::<
                    (ClutterMap, int),
                    DecodeError,
                >((map@, end as int)) && map.well_formed(),
                Err(e) => clutter_map_at(window@, cursor as int, *limits) == Err::<
                    (ClutterMap, int),
                    DecodeError,
                >(e),
            },
            r matches Ok((map, end)) ==> {
                &&& cursor <= end <= window@.len()
                &&& end == cursor + clutter_map_len(map@)
                &&& window@.subrange(cursor as int, end as int) == clutter_map_bytes(map@)
                &&& map_within(map@, *limits)
            },
    {
        let map_generation_date: i16 = match read_i16(window, cursor) {
            Ok(v) => v,
            Err(e) => {
                return Err(e);
            },
        };
        let map_generation_time: i16 = match read_i16(window, cursor + 2) {
            Ok(v) => v,
            Err(e) => {
                return Err(e);
            },
        };
        let (count, first) = match read_count(window, cursor + 4, limits.max_elevation_segments) {
            Ok(read) => read,
            Err(e) => {
                return Err(e);
            },
        };
        let mut elevation_segments: Vec<ElevationSegment> = Vec::new();
        let mut at: usize = first;
        let mut i: u16 = 0;
        assert(elevation_views(elevation_segments@) =~= Seq::empty());
        while i < count
            invariant
                i <= count,
                elevation_segments@.len() == i,
                holds(window@, cursor as int, 2),
                holds(window@, cursor + 2, 2),
                count_at(window@, cursor + 4, limits.max_elevation_segments) == Ok::<
                    (u16, int),
                    DecodeError,
                >((count, first as int)),
                elevations_at(window@, first as int, i as nat, *limits) == Ok::<
                    (Seq<Seq<Seq<RangeZone>>>, int),
                    DecodeError,
                >((elevation_views(elevation_segments@), at as int)),
                forall|k: int|
                    0 <= k < elevation_segments@.len() ==> (
                    #[trigger] elevation_segments@[k]).well_formed(),
            decreases count - i,
        {
            match ElevationSegment::decode(window, at, limits) {
                Ok((segment, next)) => {
                    let ghost before = elevation_views(elevation_segments@);
                    elevation_segments.push(segment);
                    assert(elevation_views(elevation_segments@) =~= before.push(segment@));
                    at = next;
                    i = i + 1;
                },
                Err(e) => {
                    proof {
                        elevations_fault_stays(
                            window@,
                            first as int,
                            (i + 1) as nat,
                            count as nat,
                            *limits,
                        );
                    }
                    return Err(e);
                },
            }
        }
        proof {
            decoded_map_reencodes(window@, cursor as int, *limits);
        }
        Ok(
            (
                ClutterFilterMapMetadata {
                    map_generation_date,
                    map_generation_time,
                    num_elevation_segments: count,
                    elevation_segments,
                },
                at,
            ),
        )
    }
}

} // verus!
