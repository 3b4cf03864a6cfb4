//! The track parser: a forward-only scan over the document's element events.
//!
//! The scan keeps two context flags — inside a track point, inside that
//! point's extensions block — plus the leaf whose text is awaited. Leaf
//! fields are only honoured in their required context; a completed point is
//! emitted exactly once, when its element closes.

use vstd::prelude::*;

use crate::numtext;
use crate::numtext::{spec_parse_decimal_nano, spec_parse_u32};
use xml::reader::{EventReader, XmlEvent as XE};

verus! {

/// One sample from the input track. Angles are in nano-degrees,
/// elevation in nano-meters, time in whole seconds of the UTC epoch.
#[derive(Debug, Clone, Copy, PartialEq, Eq)]
pub struct GpxPoint {
    pub lat_nano: i64,
    pub lon_nano: i64,
    pub elevation_nano: Option<i64>,
    pub time_s: Option<i64>,
    pub heart_rate: Option<u32>,
    pub cadence: Option<u32>,
}

/// The accumulator a point starts from: origin coordinates, nothing set.
pub open spec fn blank_point() -> GpxPoint {
    GpxPoint {
        lat_nano: 0,
        lon_nano: 0,
        elevation_nano: None,
        time_s: None,
        heart_rate: None,
        cadence: None,
    }
}

fn blank_point_exec() -> (p: GpxPoint)
    ensures
        p == blank_point(),
{
    GpxPoint {
        lat_nano: 0,
        lon_nano: 0,
        elevation_nano: None,
        time_s: None,
        heart_rate: None,
        cadence: None,
    }
}

/// One element event of the document, with names and texts as bytes.
#[derive(Debug, Clone, PartialEq, Eq)]
pub enum GpxEvent {
    /// An element opens: its local name and its attributes, each a key and a value.
    Start(Vec<u8>, Vec<(Vec<u8>, Vec<u8>)>),
    /// An element closes: its local name.
    End(Vec<u8>),
    /// Text content between elements.
    Text(Vec<u8>),
    /// Markup the scan does not read (declarations, comments, whitespace).
    Other,
    /// A structural error: the scan stops here and keeps what it has.
    Fault,
}

/// A recoverable oddity of the input: the field stays unset, the scan goes on.
#[derive(Debug, Clone, Copy, PartialEq, Eq, Structural)]
pub enum Warning {
    ElevationOutsidePoint,
    HeartRateOutsideExtensions,
    CadenceOutsideExtensions,
    BadElevation,
    BadTime,
    BadHeartRate,
    BadCadence,
}

/// The leaf whose text content the scan awaits.
#[derive(Debug, Clone, Copy, PartialEq, Eq, Structural)]
pub enum Leaf {
    Ele,
    Time,
    Hr,
    Cad,
}

/// The element names the scan reacts to.
#[derive(Debug, Clone, Copy, PartialEq, Eq, Structural)]
pub enum ElemKind {
    Trkpt,
    Ele,
    Time,
    Extensions,
    Hr,
    Cad,
    OtherElem,
}

/// The attribute keys of a track point the scan reads.
#[derive(Debug, Clone, Copy, PartialEq, Eq, Structural)]
pub enum AttrKind {
    Lat,
    Lon,
    OtherAttr,
}

pub open spec fn trkpt_name() -> Seq<u8> {
    seq![116u8, 114u8, 107u8, 112u8, 116u8]
}

pub open spec fn ele_name() -> Seq<u8> {
    seq![101u8, 108u8, 101u8]
}

pub open spec fn time_name() -> Seq<u8> {
    seq![116u8, 105u8, 109u8, 101u8]
}

pub open spec fn extensions_name() -> Seq<u8> {
    seq![101u8, 120u8, 116u8, 101u8, 110u8, 115u8, 105u8, 111u8, 110u8, 115u8]
}

pub open spec fn hr_name() -> Seq<u8> {
    seq![104u8, 114u8]
}

pub open spec fn cad_name() -> Seq<u8> {
    seq![99u8, 97u8, 100u8]
}

pub open spec fn lat_name() -> Seq<u8> {
    seq![108u8, 97u8, 116u8]
}

pub open spec fn lon_name() -> Seq<u8> {
    seq![108u8, 111u8, 110u8]
}

pub open spec fn classify_elem(n: Seq<u8>) -> ElemKind {
    if n == trkpt_name() {
        ElemKind::Trkpt
    } else if n == ele_name() {
        ElemKind::Ele
    } else if n == time_name() {
        ElemKind::Time
    } else if n == extensions_name() {
        ElemKind::Extensions
    } else if n == hr_name() {
        ElemKind::Hr
    } else if n == cad_name() {
        ElemKind::Cad
    } else {
        ElemKind::OtherElem
    }
}

pub open spec fn classify_attr(n: Seq<u8>) -> AttrKind {
    if n == lat_name() {
        AttrKind::Lat
    } else if n == lon_name() {
        AttrKind::Lon
    } else {
        AttrKind::OtherAttr
    }
}

fn elem_kind(n: &[u8]) -> (r: ElemKind)
    ensures
        r == classify_elem(n@),
{
    if n.len() == 5 && n[0] == 116 && n[1] == 114 && n[2] == 107 && n[3] == 112 && n[4] == 116 {
        proof {
            assert(n@ =~= trkpt_name());
        }
        ElemKind::Trkpt
    } else if n.len() == 3 && n[0] == 101 && n[1] == 108 && n[2] == 101 {
        proof {
            assert(n@ =~= ele_name());
        }
        ElemKind::Ele
    } else if n.len() == 4 && n[0] == 116 && n[1] == 105 && n[2] == 109 && n[3] == 101 {
        proof {
            assert(n@ =~= time_name());
        }
        ElemKind::Time
    } else if n.len() == 10 && n[0] == 101 && n[1] == 120 && n[2] == 116 && n[3] == 101 && n[4]
        == 110 && n[5] == 115 && n[6] == 105 && n[7] == 111 && n[8] == 110 && n[9] == 115 {
        proof {
            assert(n@ =~= extensions_name());
        }
        ElemKind::Extensions
    } else if n.len() == 2 && n[0] == 104 && n[1] == 114 {
        proof {
            assert(n@ =~= hr_name());
        }
        ElemKind::Hr
    } else if n.len() == 3 && n[0] == 99 && n[1] == 97 && n[2] == 100 {
        proof {
            assert(n@ =~= cad_name());
        }
        ElemKind::Cad
    } else {
        ElemKind::OtherElem
    }
}

fn attr_kind(n: &[u8]) -> (r: AttrKind)
    ensures
        r == classify_attr(n@),
{
    if n.len() == 3 && n[0] == 108 && n[1] == 97 && n[2] == 116 {
        proof {
            assert(n@ =~= lat_name());
        }
        AttrKind::Lat
    } else if n.len() == 3 && n[0] == 108 && n[1] == 111 && n[2] == 110 {
        proof {
            assert(n@ =~= lon_name());
        }
        AttrKind::Lon
    } else {
        AttrKind::OtherAttr
    }
}

/// What the time parse of the standard track timestamp text yields:
/// the instant as whole seconds of the UTC epoch, or nothing when the
/// text is no timestamp. The outcome depends on the text alone.
pub uninterp spec fn utc_epoch_of(text: Seq<u8>) -> Option<i64>;

/// Relies on chrono: `str::parse::<DateTime<Utc>>` (an RFC 3339 style parse)
/// and `DateTime::timestamp`, both functions of the text alone.
#[verifier::external_body]
fn parse_utc_epoch(text: &[u8]) -> (r: Option<i64>)
    ensures
        r == utc_epoch_of(text@),
{
    match std::str::from_utf8(text) {
        Ok(s) => match s.parse::<chrono::DateTime<chrono::Utc>>() {
            Ok(d) => Some(d.timestamp()),
            Err(_) => None,
        },
        Err(_) => None,
    }
}

/// The whole scan state between two events.
pub struct ScanState {
    /// Inside an open track point.
    pub in_point: bool,
    /// Inside an extensions block of a track point.
    pub in_ext: bool,
    /// The leaf whose text the very next event may supply.
    pub pending: Option<Leaf>,
    /// The point being accumulated.
    pub cur: GpxPoint,
    /// The points emitted so far, in document order.
    pub points: Seq<GpxPoint>,
    /// The warnings emitted so far, in document order.
    pub warnings: Seq<Warning>,
    /// The scan has stopped and ignores the rest.
    pub done: bool,
    /// A malformed coordinate attribute was met: the run must abort.
    pub coord_fault: bool,
    /// The underlying document was structurally broken.
    pub xml_fault: bool,
}

pub open spec fn scan_init() -> ScanState {
    ScanState {
        in_point: false,
        in_ext: false,
        pending: None,
        cur: blank_point(),
        points: seq![],
        warnings: seq![],
        done: false,
        coord_fault: false,
        xml_fault: false,
    }
}

/// One coordinate attribute applied to the accumulator; the flag reports a
/// malformed coordinate value.
pub open spec fn apply_attr(cur: GpxPoint, a: (Vec<u8>, Vec<u8>)) -> (GpxPoint, bool) {
    match classify_attr(a.0@) {
        AttrKind::Lat => match spec_parse_decimal_nano(a.1@) {
            Some(v) => (GpxPoint { lat_nano: v, ..cur }, false),
            None => (cur, true),
        },
        AttrKind::Lon => match spec_parse_decimal_nano(a.1@) {
            Some(v) => (GpxPoint { lon_nano: v, ..cur }, false),
            None => (cur, true),
        },
        AttrKind::OtherAttr => (cur, false),
    }
}

/// All attributes of a track point applied in order; the first malformed
/// coordinate stops the walk with the fault flag set.
pub open spec fn apply_attrs(cur: GpxPoint, attrs: Seq<(Vec<u8>, Vec<u8>)>) -> (GpxPoint, bool)
    decreases attrs.len(),
{
    if attrs.len() == 0 {
        (cur, false)
    } else {
        let r0 = apply_attr(cur, attrs[0]);
        if r0.1 {
            (r0.0, true)
        } else {
            apply_attrs(r0.0, attrs.drop_first())
        }
    }
}

/// The awaited leaf consumes a text event: a parsed value fills its field,
/// an unparsable text leaves the field and warns.
pub open spec fn consume_text(s: ScanState, leaf: Leaf, text: Seq<u8>) -> ScanState {
    match leaf {
        Leaf::Ele => match spec_parse_decimal_nano(text) {
            Some(v) => (ScanState {
                pending: None,
                cur: GpxPoint { elevation_nano: Some(v), ..s.cur },
                ..s
            }),
            None => (ScanState {
                pending: None,
                warnings: s.warnings.push(Warning::BadElevation),
                ..s
            }),
        },
        Leaf::Time => match utc_epoch_of(text) {
            Some(t) => (ScanState { pending: None, cur: GpxPoint { time_s: Some(t), ..s.cur }, ..s }),
            None => (ScanState { pending: None, warnings: s.warnings.push(Warning::BadTime), ..s }),
        },
        Leaf::Hr => match spec_parse_u32(text) {
            Some(v) => (ScanState {
                pending: None,
                cur: GpxPoint { heart_rate: Some(v), ..s.cur },
                ..s
            }),
            None => (ScanState {
                pending: None,
                warnings: s.warnings.push(Warning::BadHeartRate),
                ..s
            }),
        },
        Leaf::Cad => match spec_parse_u32(text) {
            Some(v) => (ScanState { pending: None, cur: GpxPoint { cadence: Some(v), ..s.cur }, ..s }),
            None => (ScanState {
                pending: None,
                warnings: s.warnings.push(Warning::BadCadence),
                ..s
            }),
        },
    }
}

/// An element opens, with the awaited leaf already cleared.
pub open spec fn open_elem(s: ScanState, name: Seq<u8>, attrs: Seq<(Vec<u8>, Vec<u8>)>) -> ScanState {
    match classify_elem(name) {
        ElemKind::Trkpt => {
            let r = apply_attrs(s.cur, attrs);
            if r.1 {
                (ScanState { in_point: true, cur: r.0, coord_fault: true, done: true, ..s })
            } else {
                (ScanState { in_point: true, cur: r.0, ..s })
            }
        },
        ElemKind::Ele => if s.in_point {
            (ScanState { pending: Some(Leaf::Ele), ..s })
        } else {
            (ScanState { warnings: s.warnings.push(Warning::ElevationOutsidePoint), ..s })
        },
        ElemKind::Time => if s.in_point {
            (ScanState { pending: Some(Leaf::Time), ..s })
        } else {
            // A timestamp may stand at track level; it belongs to no point
            // and passes in silence.
            s
        },
        ElemKind::Extensions => if s.in_point {
            (ScanState { in_ext: true, ..s })
        } else {
            s
        },
        ElemKind::Hr => if s.in_ext {
            (ScanState { pending: Some(Leaf::Hr), ..s })
        } else {
            (ScanState { warnings: s.warnings.push(Warning::HeartRateOutsideExtensions), ..s })
        },
        ElemKind::Cad => if s.in_ext {
            (ScanState { pending: Some(Leaf::Cad), ..s })
        } else {
            (ScanState { warnings: s.warnings.push(Warning::CadenceOutsideExtensions), ..s })
        },
        ElemKind::OtherElem => s,
    }
}

/// An element closes: a closing track point emits the accumulated point and
/// blanks the accumulator; a closing extensions block drops that flag.
pub open spec fn close_elem(s: ScanState, name: Seq<u8>) -> ScanState {
    match classify_elem(name) {
        ElemKind::Trkpt => (ScanState {
            in_point: false,
            cur: blank_point(),
            points: s.points.push(s.cur),
            ..s
        }),
        ElemKind::Extensions => (ScanState { in_ext: false, ..s }),
        _ => s,
    }
}

/// One event applied to the scan state.
pub open spec fn scan_step(s: ScanState, e: GpxEvent) -> ScanState {
    if s.done {
        s
    } else if s.pending is Some && e is Text {
        consume_text(s, s.pending->0, e->Text_0@)
    } else {
        let s2 = ScanState { pending: None, ..s };
        match e {
            GpxEvent::Start(name, attrs) => open_elem(s2, name@, attrs@),
            GpxEvent::End(name) => close_elem(s2, name@),
            GpxEvent::Text(_) => s2,
            GpxEvent::Other => s2,
            GpxEvent::Fault => (ScanState { done: true, xml_fault: true, ..s2 }),
        }
    }
}

/// The scan state after the first `n` events.
pub open spec fn scan_prefix(es: Seq<GpxEvent>, n: int) -> ScanState
    decreases n,
{
    if n <= 0 {
        scan_init()
    } else {
        scan_step(scan_prefix(es, n - 1), es[n - 1])
    }
}

/// The scan state after the whole event sequence.
pub open spec fn scan(es: Seq<GpxEvent>) -> ScanState {
    scan_prefix(es, es.len() as int)
}

/// What a scan hands back.
#[derive(Debug)]
pub struct ScanOutcome {
    pub points: Vec<GpxPoint>,
    pub warnings: Vec<Warning>,
    /// A malformed coordinate attribute was met: the run must abort,
    /// there is no safe reading of such a document.
    pub coordinate_fault: bool,
    /// The document broke off or was not well formed: the points before
    /// the break are kept.
    pub xml_fault: bool,
}

/// The attributes of an opening track point applied to the accumulator.
#[verifier::loop_isolation(false)]
fn apply_attrs_exec(cur0: GpxPoint, attrs: &Vec<(Vec<u8>, Vec<u8>)>) -> (r: (GpxPoint, bool))
    ensures
        r == apply_attrs(cur0, attrs@),
{
    let mut cur = cur0;
    let mut j: usize = 0;
    proof {
        assert(attrs@.skip(0) =~= attrs@);
    }
    while j < attrs.len()
        invariant
            0 <= j <= attrs@.len(),
            apply_attrs(cur0, attrs@) == apply_attrs(cur, attrs@.skip(j as int)),
        decreases attrs@.len() - j,
    {
        proof {
            assert(attrs@.skip(j as int)[0] == attrs@[j as int]);
            assert(attrs@.skip(j as int).drop_first() =~= attrs@.skip(j as int + 1));
        }
        match attr_kind(attrs[j].0.as_slice()) {
            AttrKind::Lat => {
                match numtext::parse_decimal_nano(attrs[j].1.as_slice()) {
                    Some(v) => {
                        cur.lat_nano = v;
                    },
                    None => {
                        return (cur, true);
                    },
                }
            },
            AttrKind::Lon => {
                match numtext::parse_decimal_nano(attrs[j].1.as_slice()) {
                    Some(v) => {
                        cur.lon_nano = v;
                    },
                    None => {
                        return (cur, true);
                    },
                }
            },
            AttrKind::OtherAttr => {},
        }
        j = j + 1;
    }
    proof {
        assert(attrs@.skip(j as int) =~= Seq::<(Vec<u8>, Vec<u8>)>::empty());
    }
    (cur, false)
}

/// The exec twin of the scan state, with growable columns.
struct ScanRun {
    in_point: bool,
    in_ext: bool,
    pending: Option<Leaf>,
    cur: GpxPoint,
    points: Vec<GpxPoint>,
    warnings: Vec<Warning>,
    done: bool,
    coord_fault: bool,
    xml_fault: bool,
}

/// The state a run stands for.
spec fn run_state(r: ScanRun) -> ScanState {
    ScanState {
        in_point: r.in_point,
        in_ext: r.in_ext,
        pending: r.pending,
        cur: r.cur,
        points: r.points@,
        warnings: r.warnings@,
        done: r.done,
        coord_fault: r.coord_fault,
        xml_fault: r.xml_fault,
    }
}

/// One event applied to the running scan.
fn step_exec(st: ScanRun, events: &Vec<GpxEvent>, i: usize) -> (r: ScanRun)
    requires
        i < events@.len(),
    ensures
        run_state(r) == scan_step(run_state(st), events@[i as int]),
{
    let mut st = st;
    if st.done {
        return st;
    }
    let consumed: bool = match (&st.pending, &events[i]) {
        (Some(leaf), GpxEvent::Text(text)) => {
            match leaf {
                Leaf::Ele => {
                    match numtext::parse_decimal_nano(text.as_slice()) {
                        Some(v) => {
                            st.cur.elevation_nano = Some(v);
                        },
                        None => {
                            st.warnings.push(Warning::BadElevation);
                        },
                    }
                },
                Leaf::Time => {
                    match parse_utc_epoch(text.as_slice()) {
                        Some(t) => {
                            st.cur.time_s = Some(t);
                        },
                        None => {
                            st.warnings.push(Warning::BadTime);
                        },
                    }
                },
                Leaf::Hr => {
                    match numtext::parse_u32(text.as_slice()) {
                        Some(v) => {
                            st.cur.heart_rate = Some(v);
                        },
                        None => {
                            st.warnings.push(Warning::BadHeartRate);
                        },
                    }
                },
                Leaf::Cad => {
                    match numtext::parse_u32(text.as_slice()) {
                        Some(v) => {
                            st.cur.cadence = Some(v);
                        },
                        None => {
                            st.warnings.push(Warning::BadCadence);
                        },
                    }
                },
            }
            st.pending = None;
            true
        },
        _ => false,
    };
    if consumed {
        return st;
    }
    st.pending = None;
    match &events[i] {
        GpxEvent::Start(name, attrs) => {
            match elem_kind(name.as_slice()) {
                ElemKind::Trkpt => {
                    st.in_point = true;
                    let r = apply_attrs_exec(st.cur, attrs);
                    st.cur = r.0;
                    if r.1 {
                        st.coord_fault = true;
                        st.done = true;
                    }
                },
                ElemKind::Ele => {
                    if st.in_point {
                        st.pending = Some(Leaf::Ele);
                    } else {
                        st.warnings.push(Warning::ElevationOutsidePoint);
                    }
                },
                ElemKind::Time => {
                    if st.in_point {
                        st.pending = Some(Leaf::Time);
                    }
                },
                ElemKind::Extensions => {
                    if st.in_point {
                        st.in_ext = true;
                    }
                },
                ElemKind::Hr => {
                    if st.in_ext {
                        st.pending = Some(Leaf::Hr);
                    } else {
                        st.warnings.push(Warning::HeartRateOutsideExtensions);
                    }
                },
                ElemKind::Cad => {
                    if st.in_ext {
                        st.pending = Some(Leaf::Cad);
                    } else {
                        st.warnings.push(Warning::CadenceOutsideExtensions);
                    }
                },
                ElemKind::OtherElem => {},
            }
        },
        GpxEvent::End(name) => {
            match elem_kind(name.as_slice()) {
                ElemKind::Trkpt => {
                    st.in_point = false;
                    let finished = st.cur;
                    st.cur = blank_point_exec();
                    st.points.push(finished);
                },
                ElemKind::Extensions => {
                    st.in_ext = false;
                },
                _ => {},
            }
        },
        GpxEvent::Text(_) => {},
        GpxEvent::Other => {},
        GpxEvent::Fault => {
            st.done = true;
            st.xml_fault = true;
        },
    }
    st
}

/// Scan a whole event sequence.
#[verifier::loop_isolation(false)]
pub fn scan_events(events: &Vec<GpxEvent>) -> (out: ScanOutcome)
    ensures
        out.points@ == scan(events@).points,
        out.warnings@ == scan(events@).warnings,
        out.coordinate_fault == scan(events@).coord_fault,
        out.xml_fault == scan(events@).xml_fault,
{
    let mut st = ScanRun {
        in_point: false,
        in_ext: false,
        pending: None,
        cur: blank_point_exec(),
        points: Vec::new(),
        warnings: Vec::new(),
        done: false,
        coord_fault: false,
        xml_fault: false,
    };
    proof {
        assert(run_state(st) =~= scan_init());
    }
    let mut i: usize = 0;
    while i < events.len()
        invariant
            0 <= i <= events@.len(),
            run_state(st) == scan_prefix(events@, i as int),
        decreases events@.len() - i,
    {
        st = step_exec(st, events, i);
        i = i + 1;
    }
    ScanOutcome {
        points: st.points,
        warnings: st.warnings,
        coordinate_fault: st.coord_fault,
        xml_fault: st.xml_fault,
    }
}

/// The element events that the underlying document scanner yields for a
/// text, in order, ending at the document's end or at its first structural
/// error. The outcome depends on the text alone.
pub uninterp spec fn xml_events(text: Seq<u8>) -> Seq<GpxEvent>;

/// Relies on xml-rs: `EventReader::new` and `EventReader::next` walk the
/// document's markup; each event is taken apart into the library's own
/// event, one arm per variant, names and texts as bytes.
#[verifier::external_body]
fn read_events(text: &[u8]) -> (r: Vec<GpxEvent>)
    ensures
        r@ == xml_events(text@),
{
    let mut rd = EventReader::new(text);
    let mut ev = Vec::new();
    loop {
        match rd.next() {
            Ok(XE::StartElement { name, attributes, .. }) => ev.push(GpxEvent::Start(name.local_name.into_bytes(), attributes.into_iter().map(|a| (a.name.local_name.into_bytes(), a.value.into_bytes())).collect())),
            Ok(XE::EndElement { name }) => ev.push(GpxEvent::End(name.local_name.into_bytes())),
            Ok(XE::Characters(t)) => ev.push(GpxEvent::Text(t.into_bytes())),
            Ok(XE::EndDocument) => return ev,
            Ok(_) => ev.push(GpxEvent::Other),
            Err(_) => { ev.push(GpxEvent::Fault); return ev; },
        }
    }
}

/// The attribute walk of an opening track point touches the coordinates
/// and nothing else.
proof fn lemma_apply_attrs_only_coords(cur: GpxPoint, attrs: Seq<(Vec<u8>, Vec<u8>)>)
    ensures
        apply_attrs(cur, attrs).0.elevation_nano == cur.elevation_nano,
        apply_attrs(cur, attrs).0.time_s == cur.time_s,
        apply_attrs(cur, attrs).0.heart_rate == cur.heart_rate,
        apply_attrs(cur, attrs).0.cadence == cur.cadence,
    decreases attrs.len(),
{
    if attrs.len() > 0 {
        let r0 = apply_attr(cur, attrs[0]);
        if !r0.1 {
            lemma_apply_attrs_only_coords(r0.0, attrs.drop_first());
        }
    }
}

/// Context isolation, arming half: only a heart-rate leaf met inside an
/// extensions block makes the scan await a heart-rate text.
pub proof fn lemma_heart_rate_armed_only_inside_extensions(s: ScanState, e: GpxEvent)
    requires
        !s.done,
    ensures
        scan_step(s, e).pending == Some(Leaf::Hr) ==> s.in_ext,
{
}

/// Context isolation, filling half: the accumulator's heart-rate field is
/// only ever set while the scan awaits a heart-rate text.
pub proof fn lemma_heart_rate_filled_only_when_armed(s: ScanState, e: GpxEvent)
    ensures
        scan_step(s, e).cur.heart_rate is Some && scan_step(s, e).cur.heart_rate != s.cur.heart_rate
            ==> s.pending == Some(Leaf::Hr) && !s.done,
{
    if !s.done && !(s.pending is Some && e is Text) {
        let s2 = ScanState { pending: None, ..s };
        match e {
            GpxEvent::Start(name, attrs) => {
                if classify_elem(name@) == ElemKind::Trkpt {
                    lemma_apply_attrs_only_coords(s2.cur, attrs@);
                }
            },
            _ => {},
        }
    }
}

/// Context isolation over a whole scan: while the scan never stands inside
/// an extensions block — whatever heart-rate leaves the document carries —
/// no accumulated or emitted point gets a heart rate.
pub proof fn lemma_no_extensions_no_heart_rate(es: Seq<GpxEvent>, n: int)
    requires
        0 <= n <= es.len(),
        forall|k: int| 0 <= k < n ==> !(#[trigger] scan_prefix(es, k)).in_ext,
    ensures
        scan_prefix(es, n).cur.heart_rate is None,
        scan_prefix(es, n).pending != Some(Leaf::Hr),
        forall|j: int|
            0 <= j < scan_prefix(es, n).points.len() ==> (#[trigger] scan_prefix(
                es,
                n,
            ).points[j]).heart_rate is None,
    decreases n,
{
    if n > 0 {
        lemma_no_extensions_no_heart_rate(es, n - 1);
        let s = scan_prefix(es, n - 1);
        let e = es[n - 1];
        if !s.done {
            lemma_heart_rate_armed_only_inside_extensions(s, e);
        }
        lemma_heart_rate_filled_only_when_armed(s, e);
        lemma_step_extends_points(s, e);
        let t = scan_prefix(es, n);
        assert forall|j: int| 0 <= j < t.points.len() implies (#[trigger] t.points[j]).heart_rate
            is None by {
            if j < s.points.len() {
                assert(t.points[j] == s.points[j]);
            } else {
                assert(t.points[j] == s.cur);
            }
        }
    }
}

/// One step keeps the points already emitted, at most appending the point
/// just finished.
proof fn lemma_step_extends_points(s: ScanState, e: GpxEvent)
    ensures
        scan_step(s, e).points == s.points || scan_step(s, e).points == s.points.push(s.cur),
{
}

/// Scanning a truncated event sequence walks through the same states.
proof fn lemma_scan_prefix_agrees(es: Seq<GpxEvent>, n: int, k: int)
    requires
        0 <= k <= n <= es.len(),
    ensures
        scan_prefix(es.take(n), k) == scan_prefix(es, k),
    decreases k,
{
    if k > 0 {
        lemma_scan_prefix_agrees(es, n, k - 1);
        assert(es.take(n)[k - 1] == es[k - 1]);
    }
}

/// The points emitted after more events extend the points emitted after
/// fewer.
proof fn lemma_scan_points_monotone(es: Seq<GpxEvent>, i: int, j: int)
    requires
        0 <= i <= j <= es.len(),
    ensures
        scan_prefix(es, i).points.is_prefix_of(scan_prefix(es, j).points),
    decreases j - i,
{
    if i < j {
        lemma_scan_points_monotone(es, i, j - 1);
        let a = scan_prefix(es, i).points;
        let b = scan_prefix(es, j - 1).points;
        lemma_step_extends_points(scan_prefix(es, j - 1), es[j - 1]);
        let c = scan_prefix(es, j).points;
        assert(c.take(a.len() as int) =~= b.take(a.len() as int));
    } else {
        assert(scan_prefix(es, i).points.take(scan_prefix(es, i).points.len() as int)
            =~= scan_prefix(es, i).points);
    }
}

/// Partial result under truncation: the document cut off after any number
/// of events still yields a prefix of the full scan's points — cutting it
/// after N complete points yields exactly those N points.
pub proof fn lemma_truncated_scan_yields_prefix(es: Seq<GpxEvent>, n: int)
    requires
        0 <= n <= es.len(),
    ensures
        scan(es.take(n)).points.is_prefix_of(scan(es).points),
{
    lemma_scan_prefix_agrees(es, n, n);
    lemma_scan_points_monotone(es, n, es.len() as int);
}

/// Parse a whole track document: scan its element events in document order.
pub fn parse_gpx(text: &[u8]) -> (out: ScanOutcome)
    ensures
        out.points@ == scan(xml_events(text@)).points,
        out.warnings@ == scan(xml_events(text@)).warnings,
        out.coordinate_fault == scan(xml_events(text@)).coord_fault,
        out.xml_fault == scan(xml_events(text@)).xml_fault,
{
    let events = read_events(text);
    scan_events(&events)
}

} // verus!
