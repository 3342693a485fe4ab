//! How the dashboard is laid out on a terminal.
use crate::numeral::{decimal, decimal_text, padded_text, zero_padded};
use crate::text::{cat2, cat4};
use vstd::prelude::*;
use vstd::string::*;

verus! {

/// A scrollbar: where it stands, where its thumb is, and how far it goes.
#[derive(Debug, Clone, Copy, PartialEq, Eq, Structural)]
pub struct ScrollbarGeometry {
    pub column: u16,
    pub top: u16,
    pub height: u16,
    pub thumb_top: u16,
    pub thumb_height: u16,
    pub max_position: usize,
}

/// A row, as far as rows go.
pub open spec fn row_of(n: int) -> int {
    if n > u16::MAX {
        u16::MAX as int
    } else {
        n
    }
}

fn add_rows(a: u16, b: u16) -> (r: u16)
    ensures
        r == row_of(a + b),
{
    match a.checked_add(b) {
        Some(n) => n,
        None => u16::MAX,
    }
}

fn less_rows(a: u16, b: u16) -> (r: u16)
    ensures
        r == if a <= b {
            0
        } else {
            a - b
        },
{
    if a <= b {
        0
    } else {
        a - b
    }
}

impl ScrollbarGeometry {
    /// Whether the scrollbar stands in a row.
    pub open spec fn covers(self, row: int) -> bool {
        self.top <= row < row_of(self.top + self.height)
    }

    /// Whether the thumb stands in a row.
    pub open spec fn thumb_covers(self, row: int) -> bool {
        self.thumb_top <= row < row_of(self.thumb_top + self.thumb_height)
    }

    /// The last row of the scrollbar.
    pub open spec fn bottom(self) -> int {
        row_of(self.top + self.height - 1)
    }

    pub fn is_at(&self, row: u16) -> (r: bool)
        ensures
            r == self.covers(row as int),
    {
        row >= self.top && row < add_rows(self.top, self.height)
    }

    pub fn is_on_thumb(&self, row: u16) -> (r: bool)
        ensures
            r == self.thumb_covers(row as int),
    {
        row >= self.thumb_top && row < add_rows(self.thumb_top, self.thumb_height)
    }

    pub fn last_row(&self) -> (r: u16)
        requires
            self.height > 0,
        ensures
            r == self.bottom(),
    {
        add_rows(self.top, self.height - 1)
    }
}

/// A number, as far as numbers go.
pub open spec fn number_of(n: int) -> int {
    if n > usize::MAX {
        usize::MAX as int
    } else {
        n
    }
}

/// A quotient, rounded to the nearest; none is zero.
pub open spec fn rounded(numerator: int, denominator: int) -> int {
    if denominator == 0 {
        0
    } else {
        number_of(numerator + denominator / 2) / denominator
    }
}

pub fn rounded_divide(numerator: usize, denominator: usize) -> (r: usize)
    ensures
        r == rounded(numerator as int, denominator as int),
{
    if denominator == 0 {
        return 0;
    }
    let total: usize = match numerator.checked_add(denominator / 2) {
        Some(total) => total,
        None => usize::MAX,
    };
    total / denominator
}

fn product(a: usize, b: usize) -> (r: usize)
    ensures
        r == number_of(a * b),
{
    match a.checked_mul(b) {
        Some(n) => n,
        None => usize::MAX,
    }
}

/// A number within bounds.
pub open spec fn clamped(n: int, low: int, high: int) -> int {
    if n < low {
        low
    } else if n > high {
        high
    } else {
        n
    }
}

/// The least of two numbers.
pub open spec fn least(a: int, b: int) -> int {
    if a <= b {
        a
    } else {
        b
    }
}

/// The rows between the two ends of a scrollbar.
pub open spec fn track(height: u16) -> int {
    if height <= 2 {
        0
    } else {
        height - 2
    }
}

/// How long the thumb is: the share of the lines that is in view, at least one row.
pub open spec fn thumb_length(height: u16, max_position: usize, viewport: usize) -> int {
    let rows = track(height);
    clamped(
        rounded(
            number_of(viewport * rows),
            number_of(
                max_position + if viewport == 0 {
                    1
                } else {
                    viewport as int
                },
            ),
        ),
        1,
        if rows == 0 {
            1
        } else {
            rows
        },
    )
}

/// How far the thumb can be dragged.
pub open spec fn slack(height: u16, thumb: int) -> int {
    if track(height) <= thumb {
        0
    } else {
        track(height) - thumb
    }
}

/// How far down the thumb stands.
pub open spec fn thumb_offset(height: u16, thumb: int, max_position: usize, position: usize) -> int {
    let room = slack(height, thumb);
    least(
        rounded(
            number_of(least(position as int, max_position as int) * room),
            if max_position == 0 {
                1
            } else {
                max_position as int
            },
        ),
        room,
    )
}

/// A scrollbar in the last column of `width`, `height` rows from `top` on.
pub open spec fn geometry(
    width: u16,
    top: u16,
    height: u16,
    max_position: usize,
    position: usize,
    viewport: usize,
) -> ScrollbarGeometry {
    let thumb = thumb_length(height, max_position, viewport);
    ScrollbarGeometry {
        column: if width == 0 {
            0
        } else {
            (width - 1) as u16
        },
        top,
        height,
        thumb_top: row_of(row_of(top + 1) + thumb_offset(height, thumb, max_position, position)) as u16,
        thumb_height: thumb as u16,
        max_position,
    }
}

proof fn lemma_rounded_bounds(numerator: int, denominator: int)
    requires
        0 <= numerator,
        0 <= denominator,
    ensures
        0 <= rounded(numerator, denominator),
{
    if denominator > 0 {
        let n = number_of(numerator + denominator / 2);
        assert(0 <= n / denominator) by (nonlinear_arith)
            requires
                0 <= n,
                0 < denominator,
        ;
    }
}

proof fn lemma_product_bounds(a: int, b: int)
    requires
        0 <= a,
        0 <= b,
    ensures
        0 <= a * b,
{
    assert(0 <= a * b) by (nonlinear_arith)
        requires
            0 <= a,
            0 <= b,
    ;
}

pub fn scrollbar_geometry(
    width: u16,
    top: u16,
    height: u16,
    max_position: usize,
    position: usize,
    viewport: usize,
) -> (r: ScrollbarGeometry)
    ensures
        r == geometry(width, top, height, max_position, position, viewport),
{
    let rows: usize = if height <= 2 {
        0
    } else {
        (height - 2) as usize
    };
    let seen: usize = if viewport == 0 {
        1
    } else {
        viewport
    };
    let total: usize = match max_position.checked_add(seen) {
        Some(total) => total,
        None => usize::MAX,
    };
    let share: usize = rounded_divide(product(viewport, rows), total);
    let longest: usize = if rows == 0 {
        1
    } else {
        rows
    };
    let thumb: usize = if share < 1 {
        1
    } else if share > longest {
        longest
    } else {
        share
    };
    let room: usize = if rows <= thumb {
        0
    } else {
        rows - thumb
    };
    let at: usize = if position <= max_position {
        position
    } else {
        max_position
    };
    let whole: usize = if max_position == 0 {
        1
    } else {
        max_position
    };
    let wanted: usize = rounded_divide(product(at, room), whole);
    let offset: usize = if wanted <= room {
        wanted
    } else {
        room
    };
    ScrollbarGeometry {
        column: less_rows(width, 1),
        top,
        height,
        thumb_top: add_rows(add_rows(top, 1), offset as u16),
        thumb_height: thumb as u16,
        max_position,
    }
}

/// The thumb stays between the two ends of its scrollbar, wherever the view is.
pub proof fn law_thumb_stays_on_its_track(
    width: u16,
    top: u16,
    height: u16,
    max_position: usize,
    position: usize,
    viewport: usize,
)
    requires
        height >= 3,
        top + height <= u16::MAX,
    ensures
        ({
            let bar = geometry(width, top, height, max_position, position, viewport);
            top < bar.thumb_top && bar.thumb_height >= 1 && bar.thumb_top + bar.thumb_height
                <= bar.bottom()
        }),
{
    let thumb = thumb_length(height, max_position, viewport);
    let room = slack(height, thumb);
    let at = least(position as int, max_position as int);
    lemma_product_bounds(at, room);
    lemma_rounded_bounds(
        number_of(at * room),
        if max_position == 0 {
            1
        } else {
            max_position as int
        },
    );
}

/// Where the view is when the thumb is dragged to a row, held `grab` rows below its top.
pub open spec fn dragged_position(bar: ScrollbarGeometry, row: u16, grab: u16) -> int {
    let start = row_of(bar.top + 1);
    let room = slack(bar.height, bar.thumb_height as int);
    let below = if row <= start {
        0
    } else {
        row - start
    };
    let offset = least(
        if below <= grab {
            0
        } else {
            below - grab
        },
        room,
    );
    if room == 0 {
        0
    } else {
        rounded(number_of(offset * bar.max_position), room)
    }
}

pub fn scrollbar_position_for_row(bar: ScrollbarGeometry, row: u16, grab_offset: u16) -> (r: usize)
    ensures
        r == dragged_position(bar, row, grab_offset),
{
    let start: u16 = add_rows(bar.top, 1);
    let rows: u16 = less_rows(bar.height, 2);
    let room: u16 = less_rows(rows, bar.thumb_height);
    if room == 0 {
        return 0;
    }
    let wanted: u16 = less_rows(less_rows(row, start), grab_offset);
    let offset: u16 = if wanted <= room {
        wanted
    } else {
        room
    };
    rounded_divide(product(offset as usize, bar.max_position), room as usize)
}

/// Dragging the thumb to either end of its track shows the beginning or the end, unless the
/// lines are more than can be reckoned with.
pub proof fn law_scrollbar_reaches_both_ends(bar: ScrollbarGeometry, row: u16, grab: u16)
    requires
        slack(bar.height, bar.thumb_height as int) > 0,
        u16::MAX * bar.max_position + u16::MAX <= usize::MAX,
    ensures
        row <= row_of(bar.top + 1) ==> dragged_position(bar, row, grab) == 0,
        row - row_of(bar.top + 1) - grab >= slack(bar.height, bar.thumb_height as int)
            ==> dragged_position(bar, row, grab) == bar.max_position,
{
    let room = slack(bar.height, bar.thumb_height as int);
    let m = bar.max_position as int;
    assert(room <= u16::MAX);
    assert(room * m <= u16::MAX * m) by (nonlinear_arith)
        requires
            0 <= room <= u16::MAX,
            0 <= m,
    ;
    assert((room * m + room / 2) / room == m) by (nonlinear_arith)
        requires
            room > 0,
            m >= 0,
    ;
    assert((room / 2) / room == 0) by (nonlinear_arith)
        requires
            room > 0,
    ;
    assert(0 * m == 0) by (nonlinear_arith);
}

/// A time as it is shown.
pub open spec fn duration_text(seconds: u64) -> Seq<char> {
    let minutes = (seconds / 60) as nat;
    let hours = minutes / 60;
    let rest = zero_padded(decimal((seconds % 60) as nat), 2);
    if minutes == 0 {
        decimal(seconds as nat) + "s"@
    } else if hours == 0 {
        decimal(minutes) + "m "@ + rest + "s"@
    } else {
        decimal(hours) + "h "@ + zero_padded(decimal(minutes % 60), 2) + "m "@ + rest + "s"@
    }
}

pub fn format_duration(seconds: u64) -> (r: String)
    ensures
        r@ == duration_text(seconds),
{
    let minutes: u64 = seconds / 60;
    let hours: u64 = minutes / 60;
    let rest = padded_text(seconds % 60, 2);
    if minutes == 0 {
        let text = decimal_text(seconds);
        cat2(text.as_str(), "s")
    } else if hours == 0 {
        let text = decimal_text(minutes);
        cat4(text.as_str(), "m ", rest.as_str(), "s")
    } else {
        let text = decimal_text(hours);
        let middle = padded_text(minutes % 60, 2);
        let head = cat4(text.as_str(), "h ", middle.as_str(), "m ");
        crate::text::cat3(head.as_str(), rest.as_str(), "s")
    }
}

/// A quotient is rounded to the nearest whole number, and up where two are as near.
pub proof fn law_quotients_are_rounded(numerator: int, denominator: int)
    requires
        0 <= numerator,
        0 < denominator,
        numerator + denominator / 2 <= usize::MAX,
    ensures
        2 * rounded(numerator, denominator) * denominator <= 2 * numerator + denominator,
        2 * numerator < 2 * rounded(numerator, denominator) * denominator + denominator + 1,
        rounded(numerator, 0) == 0,
{
    let q = rounded(numerator, denominator);
    let half = denominator / 2;
    let n = numerator + half;
    assert(q * denominator <= n < q * denominator + denominator) by (nonlinear_arith)
        requires
            q == n / denominator,
            denominator > 0,
            n >= 0,
    ;
    assert(2 * q * denominator == 2 * (q * denominator)) by (nonlinear_arith);
}

/// A time is shown in seconds below a minute, in minutes and seconds below an hour, and in
/// hours, minutes and seconds from there on.
pub proof fn law_times_are_shown_by_their_units(hours: u64, minutes: u64, seconds: u64)
    requires
        hours <= 1_000_000_000_000_000,
        minutes < 60,
        seconds < 60,
    ensures
        ({
            let t = duration_text((3_600 * hours + 60 * minutes + seconds) as u64);
            let rest = zero_padded(decimal(seconds as nat), 2) + "s"@;
            &&& hours == 0 && minutes == 0 ==> t == decimal(seconds as nat) + "s"@
            &&& hours == 0 && minutes > 0 ==> t == decimal(minutes as nat) + "m "@ + zero_padded(
                decimal(seconds as nat),
                2,
            ) + "s"@
            &&& hours > 0 ==> t == decimal(hours as nat) + "h "@ + zero_padded(
                decimal(minutes as nat),
                2,
            ) + "m "@ + zero_padded(decimal(seconds as nat), 2) + "s"@
        }),
{
    let total = (3_600 * hours + 60 * minutes + seconds) as u64;
    assert(total / 60 == 60 * hours + minutes);
    assert(total % 60 == seconds);
    assert((60 * hours + minutes) / 60 == hours as int);
}

} // verus!
