//! What a latency plot shows: its bounds, its lines and its labels.

use crate::text;
use vstd::prelude::*;

verus! {

/// Font of the labels.
pub const FONT: &'static str = "Fira Code";

/// Width of the plot in pixels.
pub const PLOT_WIDTH: u32 = 800;

/// Height of the plot in pixels.
pub const PLOT_HEIGHT: u32 = 400;

/// One point of a plot.
#[derive(Debug, Clone, Copy)]
pub struct Measurement<'a> {
    /// The line that the point belongs to.
    pub name: &'a str,
    /// Latency in nanoseconds.
    pub latency: u64,
    /// Payload size in bytes.
    pub payload_size: u64,
}

// ---------------------------------------------------------------------------
// Sizes
// ---------------------------------------------------------------------------

/// How many times `unit` goes into `n`, to the nearest whole number; halfway
/// between two it is the even one.
pub open spec fn nearest(n: nat, unit: nat) -> nat {
    let whole = n / unit;
    let twice_rest = 2 * (n % unit);
    if twice_rest > unit || (twice_rest == unit && whole % 2 == 1) {
        whole + 1
    } else {
        whole
    }
}

/// The distance between numbers that 53 significant bits can hold, near `n`.
pub open spec fn spacing(n: nat) -> nat
    decreases n,
{
    if n < 0x20_0000_0000_0000 {
        1
    } else {
        2 * spacing(n / 2)
    }
}

/// The number of 53 significant bits that is nearest to `n`.
pub open spec fn significant(n: nat) -> nat {
    nearest(n, spacing(n)) * spacing(n)
}

/// A number of tenths, with one decimal.
pub open spec fn tenths_text(tenths: nat) -> Seq<char> {
    text::decimal(tenths / 10) + "."@ + text::decimal(tenths % 10)
}

/// A size as it reads in a label: in megabytes or kilobytes of 53 significant
/// bits with one decimal, or in bytes below that.
pub open spec fn size_label(size: nat) -> Seq<char> {
    if size >= 0x10_0000 {
        tenths_text(nearest(significant(size) * 10, 0x10_0000)) + "mb"@
    } else if size >= 0x400 {
        tenths_text(nearest(size * 10, 0x400)) + "kb"@
    } else {
        text::decimal(size) + "b"@
    }
}

fn nearest_whole(n: u128, unit: u128) -> (r: u128)
    requires
        0 < unit <= 0x1_0000_0000_0000_0000,
        n < u128::MAX / 2,
    ensures
        r == nearest(n as nat, unit as nat),
        r <= n / unit + 1,
{
    let whole = n / unit;
    let twice_rest = 2 * (n % unit);
    assert(whole <= n) by (nonlinear_arith)
        requires
            whole == n / unit,
            unit > 0,
    ;
    if twice_rest > unit || (twice_rest == unit && whole % 2 == 1) {
        whole + 1
    } else {
        whole
    }
}

/// The number of 53 significant bits that is nearest to `size`.
fn significant_size(size: u64) -> (r: u128)
    ensures
        r == significant(size as nat),
        r <= 0x1_0000_0000_0000_0000 + 0x1000,
{
    let mut unit: u128 = 1;
    let mut rest: u64 = size;
    while rest >= 0x20_0000_0000_0000
        invariant
            unit * spacing(rest as nat) == spacing(size as nat),
            rest * unit <= size,
            1 <= unit <= 0x1000,
        decreases rest,
    {
        proof {
            let half = spacing((rest / 2) as nat);
            assert(spacing(rest as nat) == 2 * half);
            assert(unit * (2 * half) == (unit * 2) * half) by (nonlinear_arith);
            assert(unit < 0x800) by (nonlinear_arith)
                requires
                    rest * unit <= 0xFFFF_FFFF_FFFF_FFFF,
                    rest >= 0x20_0000_0000_0000,
            ;
            assert((rest / 2) * (unit * 2) <= rest * unit) by (nonlinear_arith);
        }
        unit = unit * 2;
        rest = rest / 2;
    }
    assert(unit * 1 == unit) by (nonlinear_arith);
    assert(unit == spacing(size as nat));
    let count = nearest_whole(size as u128, unit);
    assert((count * unit) <= size + unit) by (nonlinear_arith)
        requires
            count <= size as int / unit as int + 1,
            unit > 0,
    ;
    assert(count * unit == significant(size as nat));
    count * unit
}

fn push_tenths(out: &mut String, tenths: u64)
    ensures
        final(out)@ == old(out)@ + tenths_text(tenths as nat),
{
    text::push_decimal(out, tenths / 10);
    out.append(".");
    text::push_decimal(out, tenths % 10);
    assert(out@ =~= old(out)@ + tenths_text(tenths as nat));
}

/// A size as it reads in a label.
pub fn format_size(size_in_bytes: u64) -> (r: String)
    ensures
        r@ == size_label(size_in_bytes as nat),
{
    let mut out = String::new();
    if size_in_bytes >= 0x10_0000 {
        let near = significant_size(size_in_bytes);
        let tenths = nearest_whole(near * 10, 0x10_0000);
        assert(tenths <= u64::MAX);
        push_tenths(&mut out, tenths as u64);
        out.append("mb");
    } else if size_in_bytes >= 0x400 {
        let tenths = nearest_whole(size_in_bytes as u128 * 10, 0x400);
        push_tenths(&mut out, tenths as u64);
        out.append("kb");
    } else {
        text::push_decimal(&mut out, size_in_bytes);
        out.append("b");
    }
    assert(out@ =~= size_label(size_in_bytes as nat));
    out
}

// ---------------------------------------------------------------------------
// Bounds
// ---------------------------------------------------------------------------

/// Whether `value` is the largest that `of` takes on the records.
pub open spec fn is_max(
    records: Seq<Measurement<'_>>,
    of: spec_fn(Measurement<'_>) -> u64,
    value: u64,
) -> bool {
    &&& exists|i: int| 0 <= i < records.len() && of(#[trigger] records[i]) == value
    &&& forall|i: int| 0 <= i < records.len() ==> of(#[trigger] records[i]) <= value
}

/// Whether `value` is the smallest that `of` takes on the records.
pub open spec fn is_min(
    records: Seq<Measurement<'_>>,
    of: spec_fn(Measurement<'_>) -> u64,
    value: u64,
) -> bool {
    &&& exists|i: int| 0 <= i < records.len() && of(#[trigger] records[i]) == value
    &&& forall|i: int| 0 <= i < records.len() ==> value <= of(#[trigger] records[i])
}

/// The room left above and below the points: a tenth of their spread, and no
/// more than there is below.
pub open spec fn padding(low: u64, high: u64) -> int {
    if (high - low) / 10 <= low {
        (high - low) / 10
    } else {
        low as int
    }
}

/// The ranges of the two axes, ends left out.
#[derive(Debug, Clone, Copy, PartialEq, Eq, Structural)]
pub struct PlotBounds {
    pub x_from: u64,
    pub x_to: u64,
    pub y_from: u64,
    pub y_to: u64,
}

/// The ranges of the axes for these points. The latencies must leave room for
/// the padding above them.
pub fn plot_bounds(records: &Vec<Measurement<'_>>) -> (r: PlotBounds)
    requires
        records@.len() > 0,
        forall|low: u64, high: u64|
            #![trigger padding(low, high)]
            is_min(records@, |m: Measurement<'_>| m.latency, low) && is_max(
                records@,
                |m: Measurement<'_>| m.latency,
                high,
            ) ==> high + padding(low, high) <= u64::MAX,
    ensures
        r.x_from == 1,
        is_max(records@, |m: Measurement<'_>| m.payload_size, r.x_to),
        exists|low: u64, high: u64|
            #![trigger padding(low, high)]
            {
                &&& is_min(records@, |m: Measurement<'_>| m.latency, low)
                &&& is_max(records@, |m: Measurement<'_>| m.latency, high)
                &&& r.y_from == low - padding(low, high)
                &&& r.y_to == high + padding(low, high)
            },
{
    let mut low = records[0].latency;
    let mut high = records[0].latency;
    let mut x_to = records[0].payload_size;
    let ghost latency = |m: Measurement<'_>| m.latency;
    let ghost size = |m: Measurement<'_>| m.payload_size;
    let ghost (mut at_low, mut at_high, mut at_x) = (0int, 0int, 0int);
    let mut i: usize = 1;
    while i < records.len()
        invariant
            latency == (|m: Measurement<'_>| m.latency),
            size == (|m: Measurement<'_>| m.payload_size),
            1 <= i <= records@.len(),
            0 <= at_low < i && records@[at_low].latency == low,
            0 <= at_high < i && records@[at_high].latency == high,
            0 <= at_x < i && records@[at_x].payload_size == x_to,
            forall|k: int|
                0 <= k < i ==> low <= latency(#[trigger] records@[k]) <= high && size(records@[k])
                    <= x_to,
        decreases records@.len() - i,
    {
        let record = records[i];
        if record.latency < low {
            low = record.latency;
            proof {
                at_low = i as int;
            }
        }
        if record.latency > high {
            high = record.latency;
            proof {
                at_high = i as int;
            }
        }
        if record.payload_size > x_to {
            x_to = record.payload_size;
            proof {
                at_x = i as int;
            }
        }
        i += 1;
    }
    let tenth = (high - low) / 10;
    let pad = if tenth <= low {
        tenth
    } else {
        low
    };
    assert(latency(records@[at_low]) == low);
    assert(latency(records@[at_high]) == high);
    assert(size(records@[at_x]) == x_to);
    assert(is_min(records@, latency, low));
    assert(is_max(records@, latency, high));
    assert(is_max(records@, size, x_to));
    assert(pad == padding(low, high));
    PlotBounds { x_from: 1, x_to, y_from: low - pad, y_to: high + pad }
}

// ---------------------------------------------------------------------------
// Lines
// ---------------------------------------------------------------------------

/// Whether a text stands before another in the alphabetical order of
/// characters, where a text stands before its longer continuations.
pub open spec fn before(a: Seq<char>, b: Seq<char>) -> bool
    decreases a.len(),
{
    if b.len() == 0 {
        false
    } else if a.len() == 0 {
        true
    } else if a[0] != b[0] {
        a[0] < b[0]
    } else {
        before(a.drop_first(), b.drop_first())
    }
}

/// The order of texts is total: of two different texts one stands first.
pub proof fn law_order_is_total(a: Seq<char>, b: Seq<char>)
    ensures
        a == b || before(a, b) || before(b, a),
        !(before(a, b) && before(b, a)),
        !before(a, a),
    decreases a.len(),
{
    if a.len() > 0 && b.len() > 0 && a[0] == b[0] {
        law_order_is_total(a.drop_first(), b.drop_first());
        if a.drop_first() == b.drop_first() {
            assert(a =~= seq![a[0]] + a.drop_first());
            assert(b =~= seq![b[0]] + b.drop_first());
        }
    } else if a.len() == 0 && b.len() == 0 {
        assert(a =~= b);
    }
    if a.len() > 0 {
        law_order_is_total(a.drop_first(), a.drop_first());
    }
}

/// The order of texts carries over.
pub proof fn law_order_is_transitive(a: Seq<char>, b: Seq<char>, c: Seq<char>)
    requires
        before(a, b),
        before(b, c),
    ensures
        before(a, c),
    decreases a.len(),
{
    if a.len() > 0 && a[0] == b[0] && b[0] == c[0] {
        law_order_is_transitive(a.drop_first(), b.drop_first(), c.drop_first());
    }
}

/// Whether a text stands before another.
pub fn stands_before(a: &str, b: &str) -> (r: bool)
    ensures
        r == before(a@, b@),
{
    let left = text::chars_of(a);
    let right = text::chars_of(b);
    let mut i: usize = 0;
    assert(left@.skip(0) =~= a@);
    assert(right@.skip(0) =~= b@);
    while i < left.len() && i < right.len() && left[i] == right[i]
        invariant
            i <= left@.len(),
            i <= right@.len(),
            before(a@, b@) == before(left@.skip(i as int), right@.skip(i as int)),
        decreases left@.len() - i,
    {
        assert(left@.skip(i as int).drop_first() =~= left@.skip(i + 1));
        assert(right@.skip(i as int).drop_first() =~= right@.skip(i + 1));
        i += 1;
    }
    if i >= right.len() {
        false
    } else if i >= left.len() {
        true
    } else {
        left[i] < right[i]
    }
}

/// The points of one line.
#[derive(Debug)]
pub struct Line<'a> {
    pub name: &'a str,
    /// Which records are its points, by index, in order.
    pub points: Vec<usize>,
}

/// Whether these are the lines for the first `n` records: one for each name, in
/// the order of the names, with all the records of that name in order.
pub open spec fn lines_of(lines: Seq<Line<'_>>, records: Seq<Measurement<'_>>, n: int) -> bool {
    &&& forall|a: int, b: int|
        #![trigger lines[a], lines[b]]
        0 <= a < b < lines.len() ==> before(lines[a].name@, lines[b].name@)
    &&& forall|a: int|
        0 <= a < lines.len() ==> points_of(
            (#[trigger] lines[a]).points@,
            records,
            lines[a].name@,
            n,
        ) && lines[a].points@.len() > 0
    &&& forall|i: int|
        #![trigger records[i]]
        0 <= i < n ==> exists|a: int|
            0 <= a < lines.len() && (#[trigger] lines[a]).name@ == records[i].name@
}

/// Whether `points` are the indices of those of the first `n` records that have
/// this name, in order.
pub open spec fn points_of(
    points: Seq<usize>,
    records: Seq<Measurement<'_>>,
    name: Seq<char>,
    n: int,
) -> bool {
    &&& forall|j: int|
        0 <= j < points.len() ==> (#[trigger] points[j]) < n && records[points[j] as int].name@
            == name
    &&& forall|j: int, k: int| 0 <= j < k < points.len() ==> points[j] < points[k]
    &&& forall|i: int|
        #![trigger records[i]]
        0 <= i < n && records[i].name@ == name ==> points.contains(i as usize)
}

proof fn lemma_point_added(
    points: Seq<usize>,
    records: Seq<Measurement<'_>>,
    name: Seq<char>,
    n: usize,
)
    requires
        points_of(points, records, name, n as int),
        n < records.len(),
        records[n as int].name@ == name,
    ensures
        points_of(points.push(n), records, name, n + 1),
{
    let after = points.push(n);
    assert forall|i: int|
        #![trigger records[i]]
        0 <= i < n + 1 && records[i].name@ == name implies after.contains(i as usize) by {
        if i < n {
            assert(points.contains(i as usize));
            let j = choose|j: int| 0 <= j < points.len() && points[j] == i as usize;
            assert(after[j] == i as usize);
        } else {
            assert(after[points.len() as int] == i as usize);
        }
    }
}

proof fn lemma_points_kept(
    points: Seq<usize>,
    records: Seq<Measurement<'_>>,
    name: Seq<char>,
    n: int,
)
    requires
        points_of(points, records, name, n),
        0 <= n < records.len(),
        records[n].name@ != name,
    ensures
        points_of(points, records, name, n + 1),
{
}

/// Puts the records of the same name together, in the order of the names.
pub fn group_lines<'a>(records: &Vec<Measurement<'a>>) -> (r: Vec<Line<'a>>)
    ensures
        lines_of(r@, records@, records@.len() as int),
{
    let mut lines: Vec<Line<'a>> = Vec::new();
    let mut n: usize = 0;
    while n < records.len()
        invariant
            n <= records.len(),
            lines_of(lines@, records@, n as int),
        decreases records.len() - n,
    {
        let name = records[n].name;
        let mut at: usize = 0;
        while at < lines.len() && stands_before(lines[at].name, name)
            invariant
                at <= lines@.len(),
                forall|a: int| 0 <= a < at ==> before((#[trigger] lines@[a]).name@, name@),
            decreases lines@.len() - at,
        {
            at += 1;
        }
        let ghost earlier = lines@;
        let found = at < lines.len() && text::same_text(lines[at].name, name);
        if found {
            lines[at].points.push(n);
            proof {
                lemma_found(earlier, lines@, records@, n, at as int);
            }
        } else {
            let mut points: Vec<usize> = Vec::new();
            points.push(n);
            lines.insert(at, Line { name, points });
            proof {
                if at < earlier.len() {
                    law_order_is_total(earlier[at as int].name@, name@);
                }
                lemma_inserted(earlier, lines@, records@, n, at as int);
            }
        }
        n += 1;
    }
    lines
}

proof fn lemma_found(
    earlier: Seq<Line<'_>>,
    lines: Seq<Line<'_>>,
    records: Seq<Measurement<'_>>,
    n: usize,
    at: int,
)
    requires
        n < records.len(),
        lines_of(earlier, records, n as int),
        0 <= at < earlier.len(),
        lines.len() == earlier.len(),
        forall|a: int| 0 <= a < lines.len() && a != at ==> lines[a] == earlier[a],
        lines[at].name == earlier[at].name,
        lines[at].points@ == earlier[at].points@.push(n),
        earlier[at].name@ == records[n as int].name@,
    ensures
        lines_of(lines, records, n + 1),
{
    assert forall|a: int, b: int|
        #![trigger lines[a], lines[b]]
        0 <= a < b < lines.len() implies before(lines[a].name@, lines[b].name@) by {
        assert(before(earlier[a].name@, earlier[b].name@));
    }
    assert forall|a: int| 0 <= a < lines.len() implies points_of(
        (#[trigger] lines[a]).points@,
        records,
        lines[a].name@,
        n + 1,
    ) && lines[a].points@.len() > 0 by {
        assert(points_of(earlier[a].points@, records, earlier[a].name@, n as int));
        if a == at {
            lemma_point_added(earlier[at].points@, records, earlier[at].name@, n);
        } else {
            if a < at {
                assert(before(earlier[a].name@, earlier[at].name@));
            } else {
                assert(before(earlier[at].name@, earlier[a].name@));
            }
            law_order_is_total(earlier[a].name@, earlier[at].name@);
            lemma_points_kept(earlier[a].points@, records, earlier[a].name@, n as int);
        }
    }
    assert forall|i: int|
        #![trigger records[i]]
        0 <= i < n + 1 implies exists|a: int|
        0 <= a < lines.len() && (#[trigger] lines[a]).name@ == records[i].name@ by {
        if i < n {
            let a = choose|a: int|
                0 <= a < earlier.len() && (#[trigger] earlier[a]).name@ == records[i].name@;
            assert(lines[a].name@ == records[i].name@);
        } else {
            assert(lines[at].name@ == records[i].name@);
        }
    }
}

proof fn lemma_inserted(
    earlier: Seq<Line<'_>>,
    lines: Seq<Line<'_>>,
    records: Seq<Measurement<'_>>,
    n: usize,
    at: int,
)
    requires
        n < records.len(),
        lines_of(earlier, records, n as int),
        0 <= at <= earlier.len(),
        exists|line: Line<'_>| #[trigger]
            earlier.insert(at, line) == lines && line.points@ == seq![n] && line.name@
                == records[n as int].name@,
        forall|a: int|
            0 <= a < at ==> before((#[trigger] earlier[a]).name@, records[n as int].name@),
        at < earlier.len() ==> before(records[n as int].name@, earlier[at].name@),
    ensures
        lines_of(lines, records, n + 1),
{
    let line = choose|line: Line<'_>| #[trigger]
        earlier.insert(at, line) == lines && line.points@ == seq![n] && line.name@
            == records[n as int].name@;
    let name = records[n as int].name@;
    assert forall|a: int| at <= a < earlier.len() implies before(
        name,
        (#[trigger] earlier[a]).name@,
    ) by {
        if a > at {
            assert(before(earlier[at].name@, earlier[a].name@));
            law_order_is_transitive(name, earlier[at].name@, earlier[a].name@);
        }
    }
    assert forall|a: int| 0 <= a < earlier.len() implies (#[trigger] earlier[a]).name@ != name by {
        law_order_is_total(earlier[a].name@, name);
    }
    assert forall|a: int, b: int|
        #![trigger lines[a], lines[b]]
        0 <= a < b < lines.len() implies before(lines[a].name@, lines[b].name@) by {
        let x = if a < at {
            a
        } else {
            a - 1
        };
        let y = if b < at {
            b
        } else {
            b - 1
        };
        if a == at {
            assert(lines[b] == earlier[y]);
        } else if b == at {
            assert(lines[a] == earlier[x]);
        } else {
            assert(lines[a] == earlier[x]);
            assert(lines[b] == earlier[y]);
        }
    }
    assert forall|a: int| 0 <= a < lines.len() implies points_of(
        (#[trigger] lines[a]).points@,
        records,
        lines[a].name@,
        n + 1,
    ) && lines[a].points@.len() > 0 by {
        if a == at {
            assert forall|i: int|
                #![trigger records[i]]
                0 <= i < n + 1 && records[i].name@ == name implies seq![n].contains(i as usize) by {
                if i < n {
                    let b = choose|b: int|
                        0 <= b < earlier.len() && (#[trigger] earlier[b]).name@ == records[i].name@;
                    assert(earlier[b].name@ != name);
                } else {
                    assert(seq![n][0] == i as usize);
                }
            }
        } else {
            let x = if a < at {
                a
            } else {
                a - 1
            };
            assert(lines[a] == earlier[x]);
            lemma_points_kept(earlier[x].points@, records, earlier[x].name@, n as int);
        }
    }
    assert forall|i: int|
        #![trigger records[i]]
        0 <= i < n + 1 implies exists|a: int|
        0 <= a < lines.len() && (#[trigger] lines[a]).name@ == records[i].name@ by {
        if i < n {
            let b = choose|b: int|
                0 <= b < earlier.len() && (#[trigger] earlier[b]).name@ == records[i].name@;
            let a = if b < at {
                b
            } else {
                b + 1
            };
            assert(lines[a] == earlier[b]);
        } else {
            assert(lines[at].name@ == name);
        }
    }
}

/// A size below a kilobyte reads as its bytes. Above that it reads as kilobytes, and
/// from a megabyte on as megabytes, to the nearest tenth, and to the even one halfway
/// between two. (From 2 to the 53rd on, the size itself is first taken to as many
/// binary digits.)
pub proof fn law_how_a_size_reads(size: u64, r: String)
    requires
        call_ensures(format_size, (size,), r),
    ensures
        size < 1024 ==> r@ == text::decimal(size as nat) + "b"@,
        1024 <= size < 1024 * 1024 ==> exists|tenths: nat|
            {
                &&& r@ == #[trigger] text::decimal(tenths / 10) + "."@ + text::decimal(tenths % 10)
                    + "kb"@
                &&& near_tenth(size as int, 1024, tenths as int)
            },
        1024 * 1024 <= size < 0x20_0000_0000_0000 ==> exists|tenths: nat|
            {
                &&& r@ == #[trigger] text::decimal(tenths / 10) + "."@ + text::decimal(tenths % 10)
                    + "mb"@
                &&& near_tenth(size as int, 0x10_0000, tenths as int)
            },
{
    let n = size as nat;
    if 1024 <= size < 1024 * 1024 {
        let tenths = nearest(n * 10, 1024);
        lemma_nearest(n * 10, 1024);
        assert(r@ == text::decimal(tenths / 10) + "."@ + text::decimal(tenths % 10) + "kb"@);
        assert(near_tenth(size as int, 1024, tenths as int));
    } else if 1024 * 1024 <= size < 0x20_0000_0000_0000 {
        assert(nearest(n, 1) == n);
        assert(n * 1 == n) by (nonlinear_arith);
        assert(significant(n) == n);
        let tenths = nearest(n * 10, 1024 * 1024);
        lemma_nearest(n * 10, 1024 * 1024);
        assert(r@ == text::decimal(tenths / 10) + "."@ + text::decimal(tenths % 10) + "mb"@);
        assert(near_tenth(size as int, 0x10_0000, tenths as int));
    }
}

/// Whether so many tenths of the unit are what is nearest to the size: no further
/// off than half a tenth, and an even number where it is just that far.
pub open spec fn near_tenth(size: int, unit: int, tenths: int) -> bool {
    let off = 10 * size - tenths * unit;
    &&& -unit <= 2 * off <= unit
    &&& 2 * off == unit || 2 * off == -unit ==> tenths % 2 == 0
}

proof fn lemma_nearest(n: nat, unit: nat)
    requires
        unit > 0,
    ensures
        ({
            let r = nearest(n, unit) as int;
            let off = n - r * unit;
            &&& -unit <= 2 * off <= unit
            &&& 2 * off == unit || 2 * off == -unit ==> r % 2 == 0
        }),
{
    let whole = n / unit;
    let rest = n % unit;
    assert(n == whole * unit + rest) by (nonlinear_arith)
        requires
            whole == n / unit,
            rest == n % unit,
            unit > 0,
    ;
    assert(rest < unit) by (nonlinear_arith)
        requires
            rest == n % unit,
            unit > 0,
    ;
    assert((whole + 1) * unit == whole * unit + unit) by (nonlinear_arith);
}

/// Whether `near` is `size` to 53 binary digits: a multiple of the distance between
/// such numbers there, and no further off than half of that.
pub open spec fn rounds_to(size: nat, near: nat) -> bool {
    let step = spacing(size);
    &&& near % step == 0
    &&& -step <= 2 * (size - near) <= step
}

/// A size of 2 to the 53rd or more is taken to as many binary digits before it is
/// put in words.
pub proof fn law_large_sizes_are_rounded_first(size: u64, r: String)
    requires
        call_ensures(format_size, (size,), r),
        size >= 0x20_0000_0000_0000,
    ensures
        exists|near: nat, tenths: nat|
            {
                &&& #[trigger] rounds_to(size as nat, near)
                &&& r@ == #[trigger] text::decimal(tenths / 10) + "."@ + text::decimal(tenths % 10)
                    + "mb"@
                &&& near_tenth(near as int, 0x10_0000, tenths as int)
            },
        spacing(size as nat) == 2 * spacing((size / 2) as nat),
        size < 0x40_0000_0000_0000 ==> spacing(size as nat) == 2,
{
    let step = spacing(size as nat);
    lemma_spacing(size as nat);
    lemma_nearest(size as nat, step);
    let count = nearest(size as nat, step);
    let near = significant(size as nat);
    assert(near % step == 0) by (nonlinear_arith)
        requires
            near == count * step,
            step > 0,
    ;
    assert(rounds_to(size as nat, near));
    let tenths = nearest(near * 10, 0x10_0000);
    lemma_nearest(near * 10, 0x10_0000);
    assert(near_tenth(near as int, 0x10_0000, tenths as int));
    assert(r@ == text::decimal(tenths / 10) + "."@ + text::decimal(tenths % 10) + "mb"@);
    reveal_with_fuel(spacing, 2);
}

proof fn lemma_spacing(n: nat)
    ensures
        spacing(n) > 0,
    decreases n,
{
    if n >= 0x20_0000_0000_0000 {
        lemma_spacing(n / 2);
    }
}

/// The axes take in every point. The one for sizes goes from one to the largest. The
/// one for latencies goes as far below the least as above the greatest: by a tenth
/// of what lies between them, but not below zero.
pub proof fn law_the_axes_take_in_every_point(
    records: &Vec<Measurement<'_>>,
    r: PlotBounds,
    i: int,
)
    requires
        call_ensures(plot_bounds, (records,), r),
    ensures
        0 <= i < records@.len() ==> {
            &&& r.y_from <= records@[i].latency <= r.y_to
            &&& records@[i].payload_size <= r.x_to
        },
        r.x_from == 1,
        exists|largest: int, least: int, greatest: int|
            #![trigger records@[largest], records@[least], records@[greatest]]
            {
                &&& 0 <= largest < records@.len() && 0 <= least < records@.len() && 0 <= greatest
                    < records@.len()
                &&& r.x_to == records@[largest].payload_size
                &&& r.y_to - records@[greatest].latency == records@[least].latency - r.y_from
                &&& r.y_to - records@[greatest].latency == (records@[greatest].latency
                    - records@[least].latency) / 10 || (r.y_from == 0 && (
                records@[greatest].latency - records@[least].latency) / 10
                    > records@[least].latency as int)
                &&& forall|k: int|
                    0 <= k < records@.len() ==> records@[least].latency <= (
                    #[trigger] records@[k]).latency <= records@[greatest].latency
            },
{
    let latency = |m: Measurement<'_>| m.latency;
    let size = |m: Measurement<'_>| m.payload_size;
    let (low, high) = choose|low: u64, high: u64|
        #![trigger padding(low, high)]
        {
            &&& is_min(records@, |m: Measurement<'_>| m.latency, low)
            &&& is_max(records@, |m: Measurement<'_>| m.latency, high)
            &&& r.y_from == low - padding(low, high)
            &&& r.y_to == high + padding(low, high)
        };
    assert(is_min(records@, latency, low));
    assert(is_max(records@, latency, high));
    assert(is_max(records@, size, r.x_to));
    let least = choose|k: int| 0 <= k < records@.len() && latency(#[trigger] records@[k]) == low;
    let greatest = choose|k: int|
        0 <= k < records@.len() && latency(#[trigger] records@[k]) == high;
    let largest = choose|k: int|
        0 <= k < records@.len() && size(#[trigger] records@[k]) == r.x_to;
    assert(latency(records@[least]) == low && latency(records@[greatest]) == high);
    assert(size(records@[largest]) == r.x_to);
    assert(low <= high) by {
        assert(latency(records@[least]) <= high);
    }
    if 0 <= i < records@.len() {
        assert(low <= latency(records@[i]) <= high);
        assert(size(records@[i]) <= r.x_to);
    }
    assert forall|k: int| 0 <= k < records@.len() implies records@[least].latency <= (
    #[trigger] records@[k]).latency <= records@[greatest].latency by {
        assert(low <= latency(records@[k]) <= high);
    }
}

/// Texts are put in order by the first character in which they differ, and a text
/// stands before its longer continuations.
pub proof fn law_texts_are_ordered_by_where_they_differ(
    common: Seq<char>,
    rest_a: Seq<char>,
    rest_b: Seq<char>,
    a: &str,
    b: &str,
    r: bool,
)
    requires
        a@ == common + rest_a,
        b@ == common + rest_b,
        call_ensures(stands_before, (a, b), r),
    ensures
        rest_a.len() > 0 && rest_b.len() > 0 && rest_a[0] != rest_b[0] ==> (r <==> rest_a[0]
            < rest_b[0]),
        rest_a.len() == 0 ==> (r <==> rest_b.len() > 0),
        rest_b.len() == 0 ==> !r,
{
    lemma_common_start(common, rest_a, rest_b);
}

proof fn lemma_common_start(common: Seq<char>, a: Seq<char>, b: Seq<char>)
    ensures
        before(common + a, common + b) == before(a, b),
    decreases common.len(),
{
    if common.len() == 0 {
        assert(common + a =~= a);
        assert(common + b =~= b);
    } else {
        let rest = common.drop_first();
        assert((common + a).drop_first() =~= rest + a);
        assert((common + b).drop_first() =~= rest + b);
        assert((common + a)[0] == (common + b)[0]);
        lemma_common_start(rest, a, b);
    }
}

/// Every point is on the line of its name and on no other. There is one line for
/// each name, with its points in the order they came in, and the lines stand in the
/// order of their names.
pub proof fn law_every_point_is_on_the_line_of_its_name<'a>(
    records: &Vec<Measurement<'a>>,
    lines: Vec<Line<'a>>,
    i: int,
    a: int,
    b: int,
    j: int,
    k: int,
)
    requires
        records@.len() <= usize::MAX,
        call_ensures(group_lines, (records,), lines),
    ensures
        0 <= i < records@.len() && 0 <= a < lines@.len() ==> (lines@[a].points@.contains(i as usize)
            <==> records@[i].name@ == lines@[a].name@),
        0 <= i < records@.len() ==> exists|line: int|
            0 <= line < lines@.len() && (#[trigger] lines@[line]).name@ == records@[i].name@,
        0 <= a < b < lines@.len() ==> before(lines@[a].name@, lines@[b].name@),
        0 <= a < lines@.len() && 0 <= j < k < lines@[a].points@.len() ==> lines@[a].points@[j]
            < lines@[a].points@[k],
        0 <= a < lines@.len() && 0 <= j < lines@[a].points@.len() ==> lines@[a].points@[j]
            < records@.len(),
        0 <= a < lines@.len() ==> lines@[a].points@.len() > 0,
{
    assert(lines_of(lines@, records@, records@.len() as int));
    if 0 <= i < records@.len() {
        assert(records@[i].name@ == records@[i].name@);
    }
    if 0 <= a < lines@.len() {
        let points = lines@[a].points@;
        assert(points_of(points, records@, lines@[a].name@, records@.len() as int));
        if 0 <= i < records@.len() && points.contains(i as usize) {
            let at = choose|at: int| 0 <= at < points.len() && points[at] == i as usize;
            assert(records@[points[at] as int].name@ == lines@[a].name@);
        }
        if 0 <= i < records@.len() && records@[i].name@ == lines@[a].name@ {
            assert(points.contains(i as usize));
        }
        if 0 <= j < points.len() {
            assert(points[j] < records@.len());
        }
    }
}

} // verus!
