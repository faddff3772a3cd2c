//! Streams: the monitors that the session captures, and where a point of the
//! screen falls on them.
//!
//! Two spaces of coordinates meet here.  The position and the size of a stream
//! are logical: they are those of the layout of the screen.  The frames that are
//! captured, and the pointer coordinates that the portal takes, are physical.  A
//! pixel of a screenshot is a pointer coordinate as it stands; a logical point
//! has to be scaled by the ratio of the frame to the size.

use vstd::prelude::*;
use vstd::string::*;

use crate::coord::Coord;
use crate::number::{decimal, show_i64, show_u64};
use crate::text::{join, joined, texts};

verus! {

/// What is known of one stream.
#[derive(Clone, Copy, Debug, PartialEq, Eq)]
pub struct StreamInfo {
    /// The node of the stream.
    pub node_id: u32,
    /// Where the monitor lies, if the portal said so.
    pub position: Option<(i32, i32)>,
    /// The logical size of the monitor, if the portal said so.
    pub size: Option<(i32, i32)>,
    /// The physical size of a captured frame, once one has been seen.
    pub frame_size: Option<(u32, u32)>,
}

/// How a logical length on a stream becomes a physical one.
#[derive(Clone, Copy, Debug, PartialEq, Eq)]
pub enum Scale {
    /// It stays as it is.
    Same,
    /// It is multiplied by the frame and divided by the size.
    By { frame: (u32, u32), size: (i32, i32) },
}

impl StreamInfo {
    /// Whether the stream covers a point of the screen: whether the point lies in
    /// the rectangle of the monitor, the near edges included and the far ones not.
    /// A number lies between two whole ones just where its floor does.  What is
    /// not a number lies nowhere.
    pub open spec fn covers(self, x: Coord, y: Coord) -> bool {
        match (self.position, self.size, x.floor, y.floor) {
            (Some(p), Some(s), Some(fx), Some(fy)) => p.0 <= fx < p.0 + s.0 && p.1 <= fy < p.1
                + s.1,
            _ => false,
        }
    }

    /// Whether the stream covers a point of the screen.  A stream whose place is
    /// not known covers none.
    pub fn contains(&self, x: &Coord, y: &Coord) -> (r: bool)
        ensures
            r == self.covers(*x, *y),
    {
        match (self.position, self.size, x.floor, y.floor) {
            (Some((sx, sy)), Some((sw, sh)), Some(fx), Some(fy)) => {
                let right: i64 = sx as i64 + sw as i64;
                let bottom: i64 = sy as i64 + sh as i64;
                fx >= sx as i64 && fx < right && fy >= sy as i64 && fy < bottom
            },
            _ => false,
        }
    }

    /// The pointer coordinate of a pixel of a screenshot: the pixel itself.
    pub fn screenshot_to_input(&self, x: Coord, y: Coord) -> (r: (Coord, Coord))
        ensures
            r == (x, y),
    {
        (x, y)
    }

    /// How a logical length on the stream becomes a physical one.
    pub open spec fn scale(self) -> Scale {
        match (self.size, self.frame_size) {
            (Some(size), Some(frame)) => if size.0 > 0 && size.1 > 0 {
                Scale::By { frame, size }
            } else {
                Scale::Same
            },
            _ => Scale::Same,
        }
    }

    /// How a logical point of the stream becomes a point of its frame.  It stays
    /// as it is while the frame is not known.
    pub fn logical_local_to_frame(&self) -> (r: Scale)
        ensures
            r == self.scale(),
    {
        match (self.size, self.frame_size) {
            (Some(size), Some(frame)) => {
                if size.0 > 0 && size.1 > 0 {
                    Scale::By { frame, size }
                } else {
                    Scale::Same
                }
            },
            _ => Scale::Same,
        }
    }

    /// Whether the compositor takes a pointer coordinate: it must lie within the
    /// logical size, where that is known.
    pub open spec fn reachable(self, ix: Coord, iy: Coord) -> bool {
        self.size matches Some(s) ==> {
            &&& ix.reaches(0)
            &&& iy.reaches(0)
            &&& !ix.reaches(s.0 as int)
            &&& !iy.reaches(s.1 as int)
        }
    }

    /// What is said of a pointer coordinate that the compositor does not take.
    pub open spec fn unreachable_text(self, ix: Coord, iy: Coord) -> Seq<char> {
        let size = self.size->0;
        "point ("@ + ix.rounded@ + ", "@ + iy.rounded@
            + ") is outside this monitor's reachable pointer range 0.."@ + decimal(size.0 as int)
            + " x 0.."@ + decimal(size.1 as int)
            + ". GNOME/mutter validates remote-desktop coordinates against the monitor's LOGICAL size, so on a fractional/HiDPI monitor the right/bottom margin of a physical-resolution screenshot ("@
            + (match self.frame_size {
            Some(f) => decimal(f.0 as int) + "x"@ + decimal(f.1 as int),
            None => "?"@,
        }) + ") can't be clicked."@
    }

    /// Tests whether the compositor takes a pointer coordinate.
    pub fn check_reachable(&self, ix: &Coord, iy: &Coord) -> (r: Result<(), String>)
        ensures
            match r {
                Ok(_) => self.reachable(*ix, *iy),
                Err(e) => !self.reachable(*ix, *iy) && e@ == self.unreachable_text(*ix, *iy),
            },
    {
        match self.size {
            None => Ok(()),
            Some((lw, lh)) => {
                if !ix.at_least(0) || !iy.at_least(0) || ix.at_least(lw as i64) || iy.at_least(
                    lh as i64,
                ) {
                    let frame: String = match self.frame_size {
                        Some((w, h)) => {
                            let mut t: String = show_u64(w as u64);
                            t.append("x");
                            t.append(show_u64(h as u64).as_str());
                            t
                        },
                        None => "?".to_owned(),
                    };
                    let mut e: String = "point (".to_owned();
                    e.append(ix.rounded.as_str());
                    e.append(", ");
                    e.append(iy.rounded.as_str());
                    e.append(") is outside this monitor's reachable pointer range 0..");
                    e.append(show_i64(lw as i64).as_str());
                    e.append(" x 0..");
                    e.append(show_i64(lh as i64).as_str());
                    e.append(
                        ". GNOME/mutter validates remote-desktop coordinates against the monitor's LOGICAL size, so on a fractional/HiDPI monitor the right/bottom margin of a physical-resolution screenshot (",
                    );
                    e.append(frame.as_str());
                    e.append(") can't be clicked.");
                    Err(e)
                } else {
                    Ok(())
                }
            },
        }
    }
}

// ---------------------------------------------------------------------------
// Finding a stream
// ---------------------------------------------------------------------------

/// The first stream that covers a point.
pub open spec fn first_covering(streams: Seq<StreamInfo>, x: Coord, y: Coord) -> Option<int>
    decreases streams.len(),
{
    if streams.len() == 0 {
        None
    } else {
        match first_covering(streams.drop_last(), x, y) {
            Some(i) => Some(i),
            None => if streams.last().covers(x, y) {
                Some(streams.len() - 1)
            } else {
                None
            },
        }
    }
}

/// Law: the stream that is found for a point covers it, and no earlier one does;
/// if none is found, none covers it.
pub proof fn found_stream_is_the_first(streams: Seq<StreamInfo>, x: Coord, y: Coord)
    ensures
        match first_covering(streams, x, y) {
            Some(i) => 0 <= i < streams.len() && streams[i].covers(x, y) && forall|j: int|
                0 <= j < i ==> !(#[trigger] streams[j]).covers(x, y),
            None => forall|j: int|
                0 <= j < streams.len() ==> !(#[trigger] streams[j]).covers(x, y),
        },
    decreases streams.len(),
{
    if streams.len() > 0 {
        let rest = streams.drop_last();
        found_stream_is_the_first(rest, x, y);
        assert forall|j: int| 0 <= j < rest.len() implies streams[j] == rest[j] by {}
        if first_covering(rest, x, y) is None {
            assert forall|j: int| 0 <= j < streams.len() - 1 implies !(
            #[trigger] streams[j]).covers(x, y) by {
                assert(!rest[j].covers(x, y));
            }
        } else {
            let i = first_covering(rest, x, y)->0;
            assert forall|j: int| 0 <= j < i implies !(#[trigger] streams[j]).covers(x, y) by {
                assert(!rest[j].covers(x, y));
            }
        }
    }
}

/// Finds the first stream that covers a point.
pub fn stream_at(streams: &Vec<StreamInfo>, x: &Coord, y: &Coord) -> (r: Option<usize>)
    ensures
        match r {
            Some(i) => first_covering(streams@, *x, *y) == Some(i as int),
            None => first_covering(streams@, *x, *y) is None,
        },
{
    for i in 0..streams.len()
        invariant
            first_covering(streams@.take(i as int), *x, *y) is None,
    {
        assert(streams@.take(i + 1).drop_last() =~= streams@.take(i as int));
        if streams[i].contains(x, y) {
            proof {
                found_stream_is_the_first(streams@.take(i as int), *x, *y);
                found_stream_is_the_first(streams@, *x, *y);
                assert forall|j: int| 0 <= j < i implies !(#[trigger] streams@[j]).covers(
                    *x,
                    *y,
                ) by {
                    assert(!streams@.take(i as int)[j].covers(*x, *y));
                }
            }
            return Some(i);
        }
    }
    assert(streams@.take(streams@.len() as int) =~= streams@);
    None
}

// ---------------------------------------------------------------------------
// Aiming at a point of the screen
// ---------------------------------------------------------------------------

/// A point of the screen on the stream that covers it.  The point of the frame
/// is the point less the origin, scaled.
#[derive(Clone, Copy, Debug)]
pub struct Aim {
    pub stream: StreamInfo,
    pub origin: (i32, i32),
    pub scale: Scale,
}

/// What is said of a point of the screen that no stream covers.
pub open spec fn uncovered_global(x: Coord, y: Coord) -> Seq<char> {
    "no stream covers global point ("@ + x.text@ + ", "@ + y.text@ + ")"@
}

/// Where a point of the screen falls: on the first stream that covers it.
pub open spec fn aimed(streams: Seq<StreamInfo>, x: Coord, y: Coord) -> Result<Aim, Seq<char>> {
    match first_covering(streams, x, y) {
        Some(i) => Ok(
            Aim {
                stream: streams[i],
                origin: streams[i].position->0,
                scale: streams[i].scale(),
            },
        ),
        None => Err(uncovered_global(x, y)),
    }
}

/// Finds where a logical point of the screen falls.
pub fn resolve_global(streams: &Vec<StreamInfo>, x: &Coord, y: &Coord) -> (r: Result<Aim, String>)
    ensures
        match r {
            Ok(aim) => aimed(streams@, *x, *y) == Ok::<Aim, Seq<char>>(aim),
            Err(e) => aimed(streams@, *x, *y) == Err::<Aim, Seq<char>>(e@),
        },
{
    match stream_at(streams, x, y) {
        Some(i) => {
            proof {
                found_stream_is_the_first(streams@, *x, *y);
            }
            let stream: StreamInfo = streams[i];
            match stream.position {
                Some(origin) => Ok(
                    Aim { stream, origin, scale: stream.logical_local_to_frame() },
                ),
                None => Err("stream has no position".to_owned()),
            }
        },
        None => {
            let mut e: String = "no stream covers global point (".to_owned();
            e.append(x.text.as_str());
            e.append(", ");
            e.append(y.text.as_str());
            e.append(")");
            Err(e)
        },
    }
}

/// Law: an aim lies on a stream of the table, and that stream covers the point.
pub proof fn aims_lie_on_covering_streams(streams: Seq<StreamInfo>, x: Coord, y: Coord)
    requires
        aimed(streams, x, y) is Ok,
    ensures
        streams.contains(aimed(streams, x, y)->Ok_0.stream),
        aimed(streams, x, y)->Ok_0.stream.covers(x, y),
        aimed(streams, x, y)->Ok_0.stream.position == Some(aimed(streams, x, y)->Ok_0.origin),
{
    found_stream_is_the_first(streams, x, y);
    let i = first_covering(streams, x, y)->0;
    assert(streams[i] == aimed(streams, x, y)->Ok_0.stream);
}

// ---------------------------------------------------------------------------
// The table of streams
// ---------------------------------------------------------------------------

/// A stream as the portal reports it: node, position and size.
pub type Reported = (u32, Option<(i32, i32)>, Option<(i32, i32)>);

/// The streams that the portal reports, with no frame seen yet.
pub open spec fn opened(reported: Seq<Reported>) -> Seq<StreamInfo> {
    Seq::new(
        reported.len(),
        |i: int|
            StreamInfo {
                node_id: reported[i].0,
                position: reported[i].1,
                size: reported[i].2,
                frame_size: None,
            },
    )
}

/// What is said of a session without streams.
pub open spec fn no_streams_reported() -> Seq<char> {
    "portal returned no streams — screencast consent denied or no monitor picked"@
}

/// Makes the table of the streams that the portal reports.  There must be one.
pub fn open_streams(reported: &Vec<Reported>) -> (r: Result<Vec<StreamInfo>, String>)
    ensures
        match r {
            Ok(streams) => reported@.len() > 0 && streams@ == opened(reported@),
            Err(e) => reported@.len() == 0 && e@ == no_streams_reported(),
        },
{
    if reported.len() == 0 {
        return Err(
            "portal returned no streams — screencast consent denied or no monitor picked".to_owned(),
        );
    }
    let mut streams: Vec<StreamInfo> = Vec::new();
    for i in 0..reported.len()
        invariant
            streams@ == opened(reported@).take(i as int),
    {
        let (node_id, position, size) = reported[i];
        streams.push(StreamInfo { node_id, position, size, frame_size: None });
        assert(streams@ =~= opened(reported@).take(i + 1));
    }
    assert(streams@ =~= opened(reported@));
    Ok(streams)
}

/// The table after the sizes of captured frames have been noted, in order.
pub open spec fn with_frames(streams: Seq<StreamInfo>, dims: Seq<(u32, u32)>) -> Seq<StreamInfo> {
    Seq::new(
        streams.len(),
        |i: int|
            if i < dims.len() {
                StreamInfo { frame_size: Some(dims[i]), ..streams[i] }
            } else {
                streams[i]
            },
    )
}

/// Notes the sizes of captured frames.  Sizes beyond the last stream are dropped.
pub fn store_frame_sizes(streams: &mut Vec<StreamInfo>, dims: &Vec<(u32, u32)>)
    ensures
        final(streams)@ == with_frames(old(streams)@, dims@),
{
    let ghost before = streams@;
    let mut i: usize = 0;
    while i < dims.len() && i < streams.len()
        invariant
            i <= dims.len(),
            i <= streams.len(),
            streams@ == with_frames(before, dims@.take(i as int)),
        ensures
            streams@ == with_frames(before, dims@.take(i as int)),
            i <= dims.len(),
            i == dims.len() || i >= before.len(),
        decreases dims.len() - i,
    {
        let mut s: StreamInfo = streams[i];
        s.frame_size = Some(dims[i]);
        streams.set(i, s);
        i = i + 1;
        assert(streams@ =~= with_frames(before, dims@.take(i as int)));
    }
    assert(streams@ =~= with_frames(before, dims@));
}

/// The nodes of the streams, in order.
pub open spec fn nodes(streams: Seq<StreamInfo>) -> Seq<u32> {
    streams.map_values(|s: StreamInfo| s.node_id)
}

/// Lists the nodes of the streams.
pub fn node_ids(streams: &Vec<StreamInfo>) -> (r: Vec<u32>)
    ensures
        r@ == nodes(streams@),
{
    let mut r: Vec<u32> = Vec::new();
    for i in 0..streams.len()
        invariant
            r@ == nodes(streams@).take(i as int),
    {
        r.push(streams[i].node_id);
        assert(r@ =~= nodes(streams@).take(i + 1));
    }
    assert(r@ =~= nodes(streams@));
    r
}

/// Law: noting the sizes of frames changes nothing else of a stream.
pub proof fn frames_change_only_sizes(streams: Seq<StreamInfo>, dims: Seq<(u32, u32)>)
    ensures
        with_frames(streams, dims).len() == streams.len(),
        nodes(with_frames(streams, dims)) == nodes(streams),
        forall|i: int, x: Coord, y: Coord|
            0 <= i < streams.len() ==> (#[trigger] with_frames(streams, dims)[i].covers(x, y))
                == streams[i].covers(x, y),
{
    assert(nodes(with_frames(streams, dims)) =~= nodes(streams));
}

/// A pair of numbers, if it is known, as text.
pub open spec fn pair_text(p: Option<(i32, i32)>, sep: Seq<char>) -> Seq<char> {
    match p {
        Some(p) => decimal(p.0 as int) + sep + decimal(p.1 as int),
        None => "?"@,
    }
}

/// One line of the list of streams.
pub open spec fn stream_line(i: int, s: StreamInfo) -> Seq<char> {
    decimal(i) + "\t"@ + decimal(s.node_id as int) + "\t"@ + pair_text(s.position, ","@) + "\t"@
        + pair_text(s.size, "x"@)
}

/// The lines of the list of streams.
pub open spec fn stream_lines(streams: Seq<StreamInfo>) -> Seq<Seq<char>> {
    Seq::new(streams.len(), |i: int| stream_line(i, streams[i]))
}

/// The list of streams as it is printed.
pub open spec fn stream_list(streams: Seq<StreamInfo>) -> Seq<char> {
    if streams.len() == 0 {
        "no streams"@
    } else {
        "idx\tnode\tpos\tsize\n"@ + joined(stream_lines(streams), "\n"@)
    }
}

fn show_pair(p: Option<(i32, i32)>, sep: &str) -> (r: String)
    ensures
        r@ == pair_text(p, sep@),
{
    match p {
        Some((a, b)) => {
            let mut r: String = show_i64(a as i64);
            r.append(sep);
            r.append(show_i64(b as i64).as_str());
            r
        },
        None => "?".to_owned(),
    }
}

/// Lists the streams: number, node, position and size, one per line.
pub fn list_streams(streams: &Vec<StreamInfo>) -> (r: String)
    ensures
        r@ == stream_list(streams@),
{
    if streams.len() == 0 {
        return "no streams".to_owned();
    }
    let mut lines: Vec<String> = Vec::new();
    for i in 0..streams.len()
        invariant
            texts(lines@) == stream_lines(streams@).take(i as int),
    {
        let s: StreamInfo = streams[i];
        let mut line: String = show_u64(i as u64);
        line.append("\t");
        line.append(show_u64(s.node_id as u64).as_str());
        line.append("\t");
        line.append(show_pair(s.position, ",").as_str());
        line.append("\t");
        line.append(show_pair(s.size, "x").as_str());
        assert(line@ == stream_line(i as int, s));
        let ghost before = texts(lines@);
        lines.push(line);
        assert(texts(lines@) =~= before.push(line@));
        assert(stream_lines(streams@).take(i + 1) =~= before.push(line@));
    }
    assert(texts(lines@) =~= stream_lines(streams@));
    let mut r: String = "idx\tnode\tpos\tsize\n".to_owned();
    r.append(join(&lines, "\n").as_str());
    r
}

/// Law: a stream covers a point just where its place and its size are known and the
/// floors of the coordinates lie in its rectangle: from its left and upper edge on,
/// and before its right and lower one.
pub proof fn streams_cover_their_rectangles(s: StreamInfo, x: Coord, y: Coord)
    ensures
        s.position is None || s.size is None || x.floor is None || y.floor is None ==> !s.covers(
            x,
            y,
        ),
        s.position matches Some(p) ==> s.size matches Some(size) ==> x.floor matches Some(fx)
            ==> y.floor matches Some(fy) ==> (s.covers(x, y) <==> {
            &&& 0 <= fx - p.0 < size.0
            &&& 0 <= fy - p.1 < size.1
        }),
{
}

/// Law: a pointer coordinate is reachable if the size of the stream is not known;
/// and else just where its floors lie between zero and that size.
pub proof fn pointers_reach_the_logical_size(s: StreamInfo, x: Coord, y: Coord)
    ensures
        s.size is None ==> s.reachable(x, y),
        s.size matches Some(size) ==> (s.reachable(x, y) <==> {
            &&& x.floor is Some && 0 <= x.floor->0 < size.0
            &&& y.floor is Some && 0 <= y.floor->0 < size.1
        }),
{
}

/// Law: whoever asks for a point outside is told the point, the logical size and
/// the size of the frames.
pub proof fn unreachable_points_are_told(s: StreamInfo, x: Coord, y: Coord)
    requires
        s.size is Some,
    ensures
        s.unreachable_text(x, y) == "point ("@ + x.rounded@ + ", "@ + y.rounded@
            + ") is outside this monitor's reachable pointer range 0.."@ + decimal(
            (s.size->0).0 as int,
        ) + " x 0.."@ + decimal((s.size->0).1 as int)
            + ". GNOME/mutter validates remote-desktop coordinates against the monitor's LOGICAL size, so on a fractional/HiDPI monitor the right/bottom margin of a physical-resolution screenshot ("@
            + (match s.frame_size {
            Some(f) => decimal(f.0 as int) + "x"@ + decimal(f.1 as int),
            None => "?"@,
        }) + ") can't be clicked."@,
{
}

/// Law: logical lengths are scaled by the frame over the size just where a frame has
/// been seen and the size is known and not empty; else they stay as they are.
pub proof fn frames_decide_the_scale(s: StreamInfo)
    ensures
        s.frame_size is None ==> s.scale() is Same,
        s.size is None ==> s.scale() is Same,
        s.size matches Some(size) ==> s.frame_size matches Some(f) ==> {
            &&& size.0 > 0 && size.1 > 0 ==> s.scale() == (Scale::By { frame: f, size })
            &&& size.0 <= 0 || size.1 <= 0 ==> s.scale() is Same
        },
{
}

/// Law: an aim is at the first stream that covers the point, from the place of that
/// stream, and by its scale; where none covers it, the point is told.
pub proof fn aims_are_at_the_first_stream(streams: Seq<StreamInfo>, x: Coord, y: Coord, i: int)
    requires
        0 <= i < streams.len(),
    ensures
        streams[i].covers(x, y) && (forall|j: int|
            0 <= j < i ==> !(#[trigger] streams[j]).covers(x, y)) ==> (first_covering(streams, x, y)
            == Some(i) && (aimed(streams, x, y) matches Ok(aim) && aim.stream == streams[i] && Some(
            aim.origin,
        ) == streams[i].position && aim.scale == streams[i].scale())),
        (forall|j: int| 0 <= j < streams.len() ==> !(#[trigger] streams[j]).covers(x, y))
            ==> first_covering(streams, x, y) is None && aimed(streams, x, y) == Err::<
            Aim,
            Seq<char>,
        >("no stream covers global point ("@ + x.text@ + ", "@ + y.text@ + ")"@),
{
    found_stream_is_the_first(streams, x, y);
    if let Some(k) = first_covering(streams, x, y) {
        if streams[i].covers(x, y) && (forall|j: int|
            0 <= j < i ==> !(#[trigger] streams[j]).covers(x, y)) {
            if k < i {
                assert(!streams[k].covers(x, y));
            }
            if i < k {
                assert(!streams[i].covers(x, y));
            }
        }
    }
}

/// Law: the table holds each stream that the portal reports, in its order, with its
/// own node, place and size and no frame.  The size of a frame is noted of the
/// stream in the same place.
pub proof fn streams_keep_their_order(
    reported: Seq<Reported>,
    streams: Seq<StreamInfo>,
    dims: Seq<(u32, u32)>,
    i: int,
)
    ensures
        opened(reported).len() == reported.len(),
        0 <= i < reported.len() ==> {
            let s = opened(reported)[i];
            s.node_id == reported[i].0 && s.position == reported[i].1 && s.size == reported[i].2
                && s.frame_size is None
        },
        with_frames(streams, dims).len() == streams.len(),
        0 <= i < streams.len() ==> {
            let s = with_frames(streams, dims)[i];
            &&& s.node_id == streams[i].node_id && s.position == streams[i].position && s.size
                == streams[i].size
            &&& i < dims.len() ==> s.frame_size == Some(dims[i])
            &&& i >= dims.len() ==> s.frame_size == streams[i].frame_size
        },
        nodes(streams).len() == streams.len(),
        0 <= i < streams.len() ==> nodes(streams)[i] == streams[i].node_id,
{
}

/// Law: the list of streams has a heading and then one line for each stream, in
/// order: its number, its node, its place and its size.
pub proof fn streams_are_listed_in_order(streams: Seq<StreamInfo>, s: StreamInfo)
    ensures
        stream_list(Seq::<StreamInfo>::empty()) == "no streams"@,
        ({
            let n = streams.len() as int;
            let line = decimal(n) + "\t"@ + decimal(s.node_id as int) + "\t"@ + (
            match s.position {
                Some(p) => decimal(p.0 as int) + ","@ + decimal(p.1 as int),
                None => "?"@,
            }) + "\t"@ + (match s.size {
                Some(p) => decimal(p.0 as int) + "x"@ + decimal(p.1 as int),
                None => "?"@,
            });
            &&& n == 0 ==> stream_list(streams.push(s)) == "idx\tnode\tpos\tsize\n"@ + line
            &&& n > 0 ==> stream_list(streams.push(s)) == stream_list(streams) + "\n"@ + line
        }),
{
    let all = stream_lines(streams.push(s));
    let before = stream_lines(streams);
    assert(all.drop_last() =~= before);
    assert(all.last() == stream_line(streams.len() as int, s));
    if streams.len() > 0 {
        let head = "idx\tnode\tpos\tsize\n"@;
        let line = stream_line(streams.len() as int, s);
        assert(head + (joined(before, "\n"@) + "\n"@ + line) =~= head + joined(before, "\n"@)
            + "\n"@ + line);
    }
}

/// Law: a session without streams is told as one.
pub proof fn missing_streams_are_told()
    ensures
        no_streams_reported()
            == "portal returned no streams — screencast consent denied or no monitor picked"@,
{
}

} // verus!
