//! Distances: the point that a query sorts by, and how far a document is from it.
use vstd::prelude::*;

use crate::json;
use crate::json::{Document, Field, Json, Number, Value};
use crate::text;
use crate::text::{is_decimal_number, write_usize};

verus! {

/// How a sort criterion writes the point that distances are measured from.
pub const GEO_POINT_PATTERN: &'static str =
    r"_geoPoint\(\s*([[:digit:].\-]+)\s*,\s*([[:digit:].\-]+)\s*\)";

/// A point, by the texts of its coordinates.
#[derive(Debug, Clone, PartialEq, Eq)]
pub struct GeoPoint {
    pub lat: String,
    pub lng: String,
}

/// What a point is, apart from how it is stored.
pub struct Point {
    pub lat: Seq<char>,
    pub lng: Seq<char>,
}

impl View for GeoPoint {
    type V = Point;

    open spec fn view(&self) -> Point {
        Point { lat: self.lat@, lng: self.lng@ }
    }
}

/// Whether a character is white space in Unicode.
pub open spec fn is_space(c: char) -> bool {
    ||| '\u{9}' <= c <= '\u{d}'
    ||| c == ' '
    ||| c == '\u{85}'
    ||| c == '\u{a0}'
    ||| c == '\u{1680}'
    ||| '\u{2000}' <= c <= '\u{200a}'
    ||| c == '\u{2028}'
    ||| c == '\u{2029}'
    ||| c == '\u{202f}'
    ||| c == '\u{205f}'
    ||| c == '\u{3000}'
}

/// Whether a character can stand in a coordinate.
pub open spec fn is_coordinate(c: char) -> bool {
    text::is_digit(c) || c == '.' || c == '-'
}

/// Whether a text has white space alone from one place up to another.
pub open spec fn spaces(text: Seq<char>, from: int, to: int) -> bool {
    from <= to <= text.len() && forall|i: int| from <= i < to ==> is_space(#[trigger] text[i])
}

/// Whether a text has a coordinate from one place up to another.
pub open spec fn coordinate(text: Seq<char>, from: int, to: int) -> bool {
    from < to <= text.len() && forall|i: int| from <= i < to ==> is_coordinate(#[trigger] text[i])
}

/// Whether a text has, from `start` on, `_geoPoint(`, two coordinates with a comma between them,
/// and a closing bracket: the first coordinate from `lat` up to `lat_end`, the comma at `comma`,
/// the second coordinate from `lng` up to `lng_end`, the bracket at `end`, and white space alone
/// between these.
pub open spec fn point_laid_out(
    text: Seq<char>,
    start: int,
    lat: int,
    lat_end: int,
    comma: int,
    lng: int,
    lng_end: int,
    end: int,
) -> bool {
    &&& 0 <= start && start + 10 <= text.len()
    &&& text.subrange(start, start + 10) == "_geoPoint("@
    &&& spaces(text, start + 10, lat)
    &&& coordinate(text, lat, lat_end)
    &&& spaces(text, lat_end, comma)
    &&& comma < text.len() && text[comma] == ','
    &&& spaces(text, comma + 1, lng)
    &&& coordinate(text, lng, lng_end)
    &&& spaces(text, lng_end, end)
    &&& end < text.len() && text[end] == ')'
}

/// Whether a text writes a point from `start` on.
pub open spec fn point_at(text: Seq<char>, start: int, point: Point) -> bool {
    exists|lat: int, lat_end: int, comma: int, lng: int, lng_end: int, end: int| #[trigger]
        point_laid_out(text, start, lat, lat_end, comma, lng, lng_end, end) && point == (Point {
            lat: text.subrange(lat, lat_end),
            lng: text.subrange(lng, lng_end),
        })
}

/// Whether a point is the first one that a text writes.
pub open spec fn first_point(text: Seq<char>, point: Point) -> bool {
    exists|start: int|
        #![trigger point_at(text, start, point)]
        point_at(text, start, point) && forall|earlier: int, other: Point|
            earlier < start ==> !#[trigger] point_at(text, earlier, other)
}

/// Whether a text writes no point.
pub open spec fn no_point(text: Seq<char>) -> bool {
    forall|start: int, point: Point| !#[trigger] point_at(text, start, point)
}

/// Searches a text for the pattern of a point, through `Regex::new` and `Regex::captures` of the
/// crate `regex`, and returns the two groups of the leftmost match. What is claimed of it is what
/// this one pattern means by the syntax of that crate: `\s` is white space in Unicode,
/// `[[:digit:].\-]` an ASCII digit, a dot or a hyphen, and a star or a plus takes as many as there
/// are.
#[verifier::external_body]
fn capture_point(pattern: &str, haystack: &str) -> (pair: Option<(String, String)>)
    requires
        pattern@ == GEO_POINT_PATTERN@,
    ensures
        match pair {
            Some((lat, lng)) => first_point(haystack@, Point { lat: lat@, lng: lng@ }),
            None => no_point(haystack@),
        },
{
    let regex = regex::Regex::new(pattern).unwrap();
    let groups = regex.captures(haystack)?;
    Some((groups[1].to_string(), groups[2].to_string()))
}

/// The point that a list of sort criteria is about: the first one that the first criterion with
/// one writes.
pub open spec fn sort_point(sorts: Seq<Seq<char>>, point: Option<Point>) -> bool {
    match point {
        Some(point) => exists|i: int|
            #![trigger sorts[i]]
            0 <= i < sorts.len() && first_point(sorts[i], point) && forall|j: int|
                0 <= j < i ==> no_point(#[trigger] sorts[j]),
        None => forall|j: int| 0 <= j < sorts.len() ==> no_point(#[trigger] sorts[j]),
    }
}

/// A text writes one point at most from any place on.
proof fn lemma_layout_unique(
    text: Seq<char>,
    start: int,
    lat: int,
    lat_end: int,
    comma: int,
    lng: int,
    lng_end: int,
    end: int,
    lat2: int,
    lat_end2: int,
    comma2: int,
    lng2: int,
    lng_end2: int,
    end2: int,
)
    requires
        point_laid_out(text, start, lat, lat_end, comma, lng, lng_end, end),
        point_laid_out(text, start, lat2, lat_end2, comma2, lng2, lng_end2, end2),
    ensures
        lat == lat2 && lat_end == lat_end2 && lng == lng2 && lng_end == lng_end2,
{
    assert(is_coordinate(text[lat]) && is_coordinate(text[lat2]));
    assert(lat == lat2);
    // Behind a coordinate comes white space or the comma.
    assert(is_space(text[lat_end]) || text[lat_end] == ',');
    assert(is_space(text[lat_end2]) || text[lat_end2] == ',');
    assert(!is_coordinate(text[lat_end]) && !is_coordinate(text[lat_end2]));
    assert(lat_end == lat_end2);
    assert(!is_space(','));
    assert(comma == comma2);
    assert(is_coordinate(text[lng]) && is_coordinate(text[lng2]));
    assert(lng == lng2);
    assert(is_space(text[lng_end]) || text[lng_end] == ')');
    assert(is_space(text[lng_end2]) || text[lng_end2] == ')');
    assert(!is_coordinate(text[lng_end]) && !is_coordinate(text[lng_end2]));
}

/// A list of sort criteria is about one point at most.
pub proof fn law_one_sort_point(sorts: Seq<Seq<char>>, left: Option<Point>, right: Option<Point>)
    requires
        sort_point(sorts, left),
        sort_point(sorts, right),
    ensures
        left == right,
{
    match (left, right) {
        (Some(p), Some(q)) => {
            let i = choose|i: int|
                #![trigger sorts[i]]
                0 <= i < sorts.len() && first_point(sorts[i], p) && forall|j: int|
                    0 <= j < i ==> no_point(#[trigger] sorts[j]);
            let k = choose|i: int|
                #![trigger sorts[i]]
                0 <= i < sorts.len() && first_point(sorts[i], q) && forall|j: int|
                    0 <= j < i ==> no_point(#[trigger] sorts[j]);
            let start = choose|start: int|
                #![trigger point_at(sorts[i], start, p)]
                point_at(sorts[i], start, p) && forall|earlier: int, other: Point|
                    earlier < start ==> !#[trigger] point_at(sorts[i], earlier, other);
            let start2 = choose|start: int|
                #![trigger point_at(sorts[k], start, q)]
                point_at(sorts[k], start, q) && forall|earlier: int, other: Point|
                    earlier < start ==> !#[trigger] point_at(sorts[k], earlier, other);
            assert(i == k);
            assert(start == start2);
            let text = sorts[i];
            let (a, b, c, d, e, f) = choose|a: int, b: int, c: int, d: int, e: int, f: int|
                #[trigger]
                point_laid_out(text, start, a, b, c, d, e, f) && p == (Point {
                    lat: text.subrange(a, b),
                    lng: text.subrange(d, e),
                });
            let (a2, b2, c2, d2, e2, f2) = choose|
                a: int,
                b: int,
                c: int,
                d: int,
                e: int,
                f: int,
            | #[trigger]
                point_laid_out(text, start, a, b, c, d, e, f) && q == (Point {
                    lat: text.subrange(a, b),
                    lng: text.subrange(d, e),
                });
            lemma_layout_unique(text, start, a, b, c, d, e, f, a2, b2, c2, d2, e2, f2);
        },
        (Some(p), None) => {
            lemma_point_somewhere(sorts, p);
        },
        (None, Some(q)) => {
            lemma_point_somewhere(sorts, q);
        },
        (None, None) => {},
    }
}

proof fn lemma_point_somewhere(sorts: Seq<Seq<char>>, point: Point)
    requires
        sort_point(sorts, Some(point)),
    ensures
        !sort_point(sorts, None),
{
    let i = choose|i: int|
        #![trigger sorts[i]]
        0 <= i < sorts.len() && first_point(sorts[i], point) && forall|j: int|
            0 <= j < i ==> no_point(#[trigger] sorts[j]);
    let start = choose|start: int|
        #![trigger point_at(sorts[i], start, point)]
        point_at(sorts[i], start, point) && forall|earlier: int, other: Point|
            earlier < start ==> !#[trigger] point_at(sorts[i], earlier, other);
    assert(!no_point(sorts[i]));
}

/// The point that a list of sort criteria is about.
pub open spec fn the_sort_point(sorts: Seq<Seq<char>>) -> Option<Point> {
    choose|point: Option<Point>| sort_point(sorts, point)
}

/// What an optional point is.
pub open spec fn point_of(point: Option<GeoPoint>) -> Option<Point> {
    match point {
        Some(point) => Some(point@),
        None => None,
    }
}

/// The point that a list of sort criteria is about.
pub fn find_geo_point(sorts: &Vec<String>) -> (point: Option<GeoPoint>)
    ensures
        sort_point(text::texts(sorts@), point_of(point)),
        point_of(point) == the_sort_point(text::texts(sorts@)),
{
    let ghost criteria = text::texts(sorts@);
    let mut i: usize = 0;
    while i < sorts.len()
        invariant
            i <= sorts.len(),
            criteria == text::texts(sorts@),
            forall|j: int| 0 <= j < i ==> no_point(#[trigger] criteria[j]),
        decreases sorts.len() - i,
    {
        assert(criteria[i as int] == sorts@[i as int]@);
        if let Some((lat, lng)) = capture_point(GEO_POINT_PATTERN, sorts[i].as_str()) {
            let point = GeoPoint { lat, lng };
            proof {
                assert(sort_point(criteria, Some(point@)));
                law_one_sort_point(criteria, Some(point@), the_sort_point(criteria));
            }
            return Some(point);
        }
        i += 1;
    }
    proof {
        assert(sort_point(criteria, None));
        law_one_sort_point(criteria, None, the_sort_point(criteria));
    }
    None
}

/// The coordinates that a document gives for itself: the numbers `lat` and `lng` under `_geo`.
pub open spec fn document_point(fields: Seq<Field>) -> Option<Point> {
    match json::lookup(fields, "_geo"@) {
        Some(Json::Object(geo)) => match (
            json::lookup(geo, "lat"@),
            json::lookup(geo, "lng"@),
        ) {
            (Some(Json::Number(lat)), Some(Json::Number(lng))) => Some(Point { lat, lng }),
            _ => None,
        },
        _ => None,
    }
}

/// The coordinates that a document gives for itself.
pub fn document_geo_point(document: &Document) -> (point: Option<GeoPoint>)
    ensures
        point_of(point) == document_point(document@),
{
    broadcast use json::lemma_value_view;

    match document.get("_geo") {
        Some(Value::Object(geo)) => match (geo.get("lat"), geo.get("lng")) {
            (Some(Value::Number(lat)), Some(Value::Number(lng))) => Some(
                GeoPoint { lat: lat.text.clone(), lng: lng.text.clone() },
            ),
            _ => None,
        },
        _ => None,
    }
}

/// What measures distances. Nothing is assumed of what it returns.
pub trait Metric {
    /// The distance between two points, in metres.
    fn distance_between_two_points(&self, from: &GeoPoint, to: &GeoPoint) -> usize
        requires
            measurable(from@),
    ;
}

/// Whether the coordinates of a point are numbers.
pub open spec fn measurable(point: Point) -> bool {
    text::decimal_number(point.lat) && text::decimal_number(point.lng)
}

/// Whether there is no point, or one whose coordinates are numbers.
pub open spec fn sortable(point: Option<Point>) -> bool {
    point matches Some(point) ==> measurable(point)
}

/// Tells whether there is no point, or one whose coordinates are numbers.
pub fn is_sortable(point: &Option<GeoPoint>) -> (answer: bool)
    ensures
        answer == sortable(point_of(*point)),
{
    match point {
        Some(point) => is_decimal_number(point.lat.as_str()) && is_decimal_number(
            point.lng.as_str(),
        ),
        None => true,
    }
}

/// Whether this distance can be measured between two points.
pub open spec fn measures<D: Metric>(
    metric: D,
    base: Point,
    point: Point,
    measured: usize,
) -> bool {
    exists|from: &GeoPoint, to: &GeoPoint| #[trigger]
        call_ensures(D::distance_between_two_points, (&metric, from, to), measured) && from@ == base
            && to@ == point
}

/// Whether these are the fields of a document once its distance from a point has been noted: under
/// `_geoDistance`, in metres, where there is a point and the document has coordinates.
pub open spec fn distance_noted<D: Metric>(
    metric: D,
    base: Option<Point>,
    before: Seq<Field>,
    after: Seq<Field>,
) -> bool {
    if base is Some && document_point(before) is Some {
        exists|measured: usize| #[trigger]
            measures(metric, base->0, document_point(before)->0, measured) && after
                == json::with_field(
                before,
                "_geoDistance"@,
                Json::Number(text::digits_of(measured as nat)),
            )
    } else {
        after == before
    }
}

/// Notes in a document its distance from a point, if there is one.
pub fn note_distance<D: Metric>(base: &Option<GeoPoint>, document: &mut Document, metric: &D)
    requires
        sortable(point_of(*base)),
    ensures
        distance_noted(*metric, point_of(*base), old(document)@, final(document)@),
{
    if let Some(base) = base {
        if let Some(point) = document_geo_point(document) {
            let measured = metric.distance_between_two_points(base, &point);
            assert(measures(*metric, base@, point@, measured));
            let noted = Value::Number(Number { text: write_usize(measured) });
            document.insert("_geoDistance".to_owned(), noted);
            proof {
                let from: Option<Point> = Some(base@);
                assert(document_point(old(document)@)->0 == point@);
                assert(measures(*metric, from->0, document_point(old(document)@)->0, measured));
                assert(distance_noted(*metric, from, old(document)@, document@));
            }
        }
    }
}

/// Notes in a document its distance from the point that a list of sort criteria is about, if there
/// is one.
pub fn insert_geo_distance<D: Metric>(sorts: &Vec<String>, document: &mut Document, metric: &D)
    requires
        sortable(the_sort_point(text::texts(sorts@))),
    ensures
        distance_noted(
            *metric,
            the_sort_point(text::texts(sorts@)),
            old(document)@,
            final(document)@,
        ),
{
    let base = find_geo_point(sorts);
    note_distance(&base, document, metric);
}

/// Noting a distance changes no other field of a document, and none at all where there is no point
/// or the document has no coordinates.
pub proof fn law_only_the_distance_changes<D: Metric>(
    metric: D,
    base: Option<Point>,
    before: Seq<Field>,
    after: Seq<Field>,
    key: Seq<char>,
)
    requires
        distance_noted(metric, base, before, after),
    ensures
        key != "_geoDistance"@ ==> json::lookup(after, key) == json::lookup(before, key),
        base is None || document_point(before) is None ==> after == before,
        base is Some && document_point(before) is Some ==> exists|measured: usize| #[trigger]
            measures(metric, base->0, document_point(before)->0, measured) && json::lookup(
                after,
                "_geoDistance"@,
            ) == Some(Json::Number(text::digits_of(measured as nat))),
{
    if base is Some && document_point(before) is Some {
        let measured = choose|measured: usize| #[trigger]
            measures(metric, base->0, document_point(before)->0, measured) && after
                == json::with_field(
                before,
                "_geoDistance"@,
                Json::Number(text::digits_of(measured as nat)),
            );
        json::law_insert_then_get(
            before,
            "_geoDistance"@,
            Json::Number(text::digits_of(measured as nat)),
            key,
        );
    }
}

/// Whether two points have the same numbers as coordinates.
pub open spec fn same_point(left: Point, right: Point) -> bool {
    text::same_number(left.lat, right.lat) && text::same_number(left.lng, right.lng)
}

/// Whether two lists of sort criteria are about the same point, however it is written, or about
/// none.
pub open spec fn same_sort_point(left: Option<Point>, right: Option<Point>) -> bool {
    match left {
        Some(left) => right matches Some(right) && same_point(left, right),
        None => right is None,
    }
}

/// Whether a metric measures alike each time it is asked about the same point.
pub open spec fn measures_alike<D: Metric>(metric: D) -> bool {
    forall|left: Point, right: Point, point: Point, a: usize, b: usize|
        same_point(left, right) && #[trigger] measures(metric, left, point, a)
            && #[trigger] measures(metric, right, point, b) ==> a == b
}

/// With a metric that measures alike, lists of sort criteria that are about the same point leave
/// the same document: other criteria, and later points, do not matter.
pub proof fn law_same_point_same_document<D: Metric>(
    metric: D,
    sorts: Seq<Seq<char>>,
    other_sorts: Seq<Seq<char>>,
    before: Seq<Field>,
    after: Seq<Field>,
    other_after: Seq<Field>,
)
    requires
        measures_alike(metric),
        same_sort_point(the_sort_point(sorts), the_sort_point(other_sorts)),
        distance_noted(metric, the_sort_point(sorts), before, after),
        distance_noted(metric, the_sort_point(other_sorts), before, other_after),
    ensures
        other_after == after,
{
    let base = the_sort_point(sorts);
    let other_base = the_sort_point(other_sorts);
    if base is Some && document_point(before) is Some {
        let point = document_point(before)->0;
        let a = choose|measured: usize| #[trigger]
            measures(metric, base->0, point, measured) && after == json::with_field(
                before,
                "_geoDistance"@,
                Json::Number(text::digits_of(measured as nat)),
            );
        let b = choose|measured: usize| #[trigger]
            measures(metric, other_base->0, point, measured) && other_after == json::with_field(
                before,
                "_geoDistance"@,
                Json::Number(text::digits_of(measured as nat)),
            );
        assert(same_point(base->0, other_base->0));
        assert(measures(metric, base->0, point, a));
        assert(measures(metric, other_base->0, point, b));
        assert(a == b);
    }
}

/// With a metric that measures alike, noting a distance once more changes nothing.
pub proof fn law_noting_twice<D: Metric>(
    metric: D,
    sorts: Seq<Seq<char>>,
    before: Seq<Field>,
    once: Seq<Field>,
    twice: Seq<Field>,
)
    requires
        measures_alike(metric),
        distance_noted(metric, the_sort_point(sorts), before, once),
        distance_noted(metric, the_sort_point(sorts), once, twice),
    ensures
        twice == once,
{
    let base = the_sort_point(sorts);
    if base is Some && document_point(before) is Some {
        let point = document_point(before)->0;
        let a = choose|measured: usize| #[trigger]
            measures(metric, base->0, point, measured) && once == json::with_field(
                before,
                "_geoDistance"@,
                Json::Number(text::digits_of(measured as nat)),
            );
        let noted = Json::Number(text::digits_of(a as nat));
        reveal_strlit("_geo");
        reveal_strlit("_geoDistance");
        assert("_geo"@.len() != "_geoDistance"@.len());
        json::law_insert_then_get(before, "_geoDistance"@, noted, "_geo"@);
        assert(document_point(once) == document_point(before));
        let b = choose|measured: usize| #[trigger]
            measures(metric, base->0, point, measured) && twice == json::with_field(
                once,
                "_geoDistance"@,
                Json::Number(text::digits_of(measured as nat)),
            );
        assert(same_point(base->0, base->0));
        assert(measures(metric, base->0, point, a));
        assert(measures(metric, base->0, point, b));
        assert(a == b);
        json::law_insert_again(before, "_geoDistance"@, noted);
    }
}

/// The point that sort criteria are about is the first one that the first criterion with one
/// writes, and there is none where no criterion writes one.
pub proof fn law_first_criterion_with_a_point(
    sorts: Vec<String>,
    found: Option<GeoPoint>,
    at: int,
    point: Point,
)
    requires
        call_ensures(find_geo_point, (&sorts,), found),
        0 <= at <= sorts@.len(),
        forall|j: int| 0 <= j < at ==> no_point((#[trigger] sorts@[j])@),
        at < sorts@.len() ==> first_point(sorts@[at]@, point),
    ensures
        at < sorts@.len() ==> found is Some && found->0.lat@ == point.lat && found->0.lng@
            == point.lng,
        at == sorts@.len() ==> found is None,
{
    lemma_sort_point_is(sorts, at, point);
}

/// The point of the first criterion with one is the one that the criteria are about.
proof fn lemma_sort_point_is(sorts: Vec<String>, at: int, point: Point)
    requires
        0 <= at <= sorts@.len(),
        forall|j: int| 0 <= j < at ==> no_point((#[trigger] sorts@[j])@),
        at < sorts@.len() ==> first_point(sorts@[at]@, point),
    ensures
        at < sorts@.len() ==> the_sort_point(text::texts(sorts@)) == Some(point),
        at == sorts@.len() ==> the_sort_point(text::texts(sorts@)) is None,
{
    let criteria = text::texts(sorts@);
    assert forall|j: int| 0 <= j < at implies no_point(#[trigger] criteria[j]) by {
        assert(criteria[j] == sorts@[j]@);
    }
    let expected: Option<Point> = if at < sorts@.len() {
        assert(criteria[at] == sorts@[at]@);
        Some(point)
    } else {
        None
    };
    assert(sort_point(criteria, expected));
    law_one_sort_point(criteria, expected, the_sort_point(criteria));
}

/// A criterion that is written as `_geoPoint(`, a latitude, a comma, a longitude and a closing
/// bracket, with or without white space between them, writes the point with that latitude and that
/// longitude, whatever comes behind it.
pub proof fn law_written_point(
    lat: Seq<char>,
    lng: Seq<char>,
    gaps: (Seq<char>, Seq<char>, Seq<char>, Seq<char>),
    rest: Seq<char>,
)
    requires
        lat.len() > 0 && lng.len() > 0,
        forall|i: int|
            0 <= i < lat.len() ==> '0' <= #[trigger] lat[i] <= '9' || lat[i] == '.' || lat[i]
                == '-',
        forall|i: int|
            0 <= i < lng.len() ==> '0' <= #[trigger] lng[i] <= '9' || lng[i] == '.' || lng[i]
                == '-',
        forall|i: int| 0 <= i < gaps.0.len() ==> #[trigger] gaps.0[i] == ' ',
        forall|i: int| 0 <= i < gaps.1.len() ==> #[trigger] gaps.1[i] == ' ',
        forall|i: int| 0 <= i < gaps.2.len() ==> #[trigger] gaps.2[i] == ' ',
        forall|i: int| 0 <= i < gaps.3.len() ==> #[trigger] gaps.3[i] == ' ',
    ensures
        first_point(
            "_geoPoint("@ + gaps.0 + lat + gaps.1 + seq![','] + gaps.2 + lng + gaps.3 + seq![')']
                + rest,
            Point { lat, lng },
        ),
{
    reveal_strlit("_geoPoint(");
    let text = "_geoPoint("@ + gaps.0 + lat + gaps.1 + seq![','] + gaps.2 + lng + gaps.3 + seq![
        ')',
    ] + rest;
    let a: int = 10int + gaps.0.len();
    let b: int = a + lat.len();
    let c: int = b + gaps.1.len();
    let d: int = c + 1 + gaps.2.len();
    let e: int = d + lng.len();
    let f: int = e + gaps.3.len();
    assert(text.subrange(0, 10) =~= "_geoPoint("@);
    assert forall|i: int| 10 <= i < a implies is_space(#[trigger] text[i]) by {
        assert(text[i] == gaps.0[i - 10]);
    }
    assert forall|i: int| a <= i < b implies is_coordinate(#[trigger] text[i]) by {
        assert(text[i] == lat[i - a]);
    }
    assert forall|i: int| b <= i < c implies is_space(#[trigger] text[i]) by {
        assert(text[i] == gaps.1[i - b]);
    }
    assert(text[c] == ',');
    assert forall|i: int| c + 1 <= i < d implies is_space(#[trigger] text[i]) by {
        assert(text[i] == gaps.2[i - c - 1]);
    }
    assert forall|i: int| d <= i < e implies is_coordinate(#[trigger] text[i]) by {
        assert(text[i] == lng[i - d]);
    }
    assert forall|i: int| e <= i < f implies is_space(#[trigger] text[i]) by {
        assert(text[i] == gaps.3[i - e]);
    }
    assert(text[f] == ')');
    assert(text.subrange(a, b) =~= lat);
    assert(text.subrange(d, e) =~= lng);
    assert(point_laid_out(text, 0, a, b, c, d, e, f));
    assert(point_at(text, 0, Point { lat, lng }));
}

/// A document has coordinates just where an object stands under `_geo` in it with a number under
/// `lat` and one under `lng`: these two, in this order.
pub proof fn law_coordinates_of_a_document(
    document: Document,
    found: Option<GeoPoint>,
    geo: Seq<Field>,
    lat: Seq<char>,
    lng: Seq<char>,
)
    requires
        call_ensures(document_geo_point, (&document,), found),
    ensures
        json::lookup(document@, "_geo"@) == Some(Json::Object(geo)) && json::lookup(geo, "lat"@)
            == Some(Json::Number(lat)) && json::lookup(geo, "lng"@) == Some(Json::Number(lng))
            ==> found is Some && found->0.lat@ == lat && found->0.lng@ == lng,
        found is Some ==> {
            let held = json::lookup(document@, "_geo"@);
            &&& held is Some && held->0 is Object
            &&& json::lookup(held->0->Object_0, "lat"@) == Some(Json::Number(found->0.lat@))
            &&& json::lookup(held->0->Object_0, "lng"@) == Some(Json::Number(found->0.lng@))
        },
{
}

/// A point can be sorted by where both its coordinates are numbers, and so can none at all.
pub proof fn law_sortable(point: Option<GeoPoint>, answer: bool)
    requires
        call_ensures(is_sortable, (&point,), answer),
    ensures
        point is None ==> answer,
        point matches Some(point) ==> (answer <==> text::decimal_number(point.lat@)
            && text::decimal_number(point.lng@)),
{
}

/// The distance that is noted in a document is the one that is measured from the point to the
/// coordinates of the document; it is noted under `_geoDistance`, as a number that is read back as
/// it was measured, and no other field changes. Without a point, or without coordinates, nothing
/// does.
pub proof fn law_measured_from_the_point<D: Metric>(
    base: Option<GeoPoint>,
    document: &mut Document,
    metric: D,
    done: (),
    geo: Seq<Field>,
    lat: Seq<char>,
    lng: Seq<char>,
    key: Seq<char>,
)
    requires
        call_ensures(note_distance::<D>, (&base, document, &metric), done),
    ensures
        base is None ==> final(document)@ == old(document)@,
        key != "_geoDistance"@ ==> json::lookup(final(document)@, key) == json::lookup(
            old(document)@,
            key,
        ),
        json::lookup(old(document)@, "_geo"@) is None ==> final(document)@ == old(document)@,
        base is Some && json::lookup(old(document)@, "_geo"@) == Some(Json::Object(geo))
            && json::lookup(geo, "lat"@) == Some(Json::Number(lat)) && json::lookup(geo, "lng"@)
            == Some(Json::Number(lng)) ==> exists|from: &GeoPoint, to: &GeoPoint, measured: usize|
            {
                &&& #[trigger] call_ensures(
                    D::distance_between_two_points,
                    (&metric, from, to),
                    measured,
                )
                &&& from.lat@ == base->0.lat@ && from.lng@ == base->0.lng@
                &&& to.lat@ == lat && to.lng@ == lng
                &&& json::lookup(final(document)@, "_geoDistance"@) is Some
                &&& json::lookup(final(document)@, "_geoDistance"@)->0 is Number
                &&& text::parsed_usize(
                    json::lookup(final(document)@, "_geoDistance"@)->0->Number_0,
                ) == Some(measured)
            },
{
    let before = old(document)@;
    let after = final(document)@;
    law_only_the_distance_changes(metric, point_of(base), before, after, key);
    if base is Some && document_point(before) is Some {
        let measured = choose|measured: usize| #[trigger]
            measures(metric, base->0@, document_point(before)->0, measured) && json::lookup(
                after,
                "_geoDistance"@,
            ) == Some(Json::Number(text::digits_of(measured as nat)));
        text::law_read_back(measured);
        assert(measures(metric, base->0@, document_point(before)->0, measured));
    }
}

/// The distance is noted from the first point that the first sort criterion with one writes, and
/// none is noted where no criterion writes one.
pub proof fn law_distance_from_the_sort_point<D: Metric>(
    sorts: Vec<String>,
    document: &mut Document,
    metric: D,
    done: (),
    at: int,
    point: Point,
)
    requires
        call_ensures(insert_geo_distance::<D>, (&sorts, document, &metric), done),
        0 <= at <= sorts@.len(),
        forall|j: int| 0 <= j < at ==> no_point((#[trigger] sorts@[j])@),
        at < sorts@.len() ==> first_point(sorts@[at]@, point),
    ensures
        at == sorts@.len() ==> final(document)@ == old(document)@,
        at < sorts@.len() ==> distance_noted(
            metric,
            Some(point),
            old(document)@,
            final(document)@,
        ),
{
    lemma_sort_point_is(sorts, at, point);
}

} // verus!
