//! Names of the files that belong to one panorama.

use vstd::prelude::*;

verus! {

/// Name of the manifest, which lists every group and its images.
pub const MANIFEST_FILE: &'static str = "qindex.json";

/// The files of a folder that are taken for panoramas, as a pattern on
/// their names. Upper and lower case are not told apart.
pub const IMAGE_PATTERN: &'static str = "*.jpg";

/// The ten digits.
pub open spec fn digits() -> Seq<char> {
    seq!['0', '1', '2', '3', '4', '5', '6', '7', '8', '9']
}

/// A number in decimal notation, without leading zeros.
pub open spec fn decimal(n: nat) -> Seq<char>
    decreases n,
{
    if n < 10 {
        seq![digits()[n as int]]
    } else {
        decimal(n / 10) + seq![digits()[(n % 10) as int]]
    }
}

/// Name of the file of the tile in row `row` and column `column`, both
/// counted from 0: the name counts them from 1.
pub open spec fn tile_name(row: nat, column: nat) -> Seq<char> {
    "row-"@ + decimal(row + 1) + "-column-"@ + decimal(column + 1) + ".jpg"@
}

/// Name of the thumbnail of the image called `stem`.
pub open spec fn thumbnail_name(stem: Seq<char>) -> Seq<char> {
    stem + "_low.JPG"@
}

/// Whether `c` is one of the ten digits.
pub open spec fn is_digit(c: char) -> bool {
    exists|d: int| 0 <= d < 10 && digits()[d] == c
}

/// A number in decimal notation has at least one character, and all its
/// characters are digits.
pub proof fn lemma_decimal_digits(n: nat)
    ensures
        decimal(n).len() >= 1,
        forall|i: int| 0 <= i < decimal(n).len() ==> is_digit(#[trigger] decimal(n)[i]),
    decreases n,
{
    if n >= 10 {
        lemma_decimal_digits(n / 10);
    }
    assert forall|i: int| 0 <= i < decimal(n).len() implies is_digit(#[trigger] decimal(n)[i]) by {
        if n < 10 {
            assert(decimal(n)[i] == digits()[n as int]);
        } else if i < decimal(n / 10).len() {
            assert(decimal(n)[i] == decimal(n / 10)[i]);
        } else {
            assert(decimal(n)[i] == digits()[(n % 10) as int]);
        }
    }
}

/// Different numbers are written differently.
pub proof fn lemma_decimal_injective(n: nat, m: nat)
    requires
        decimal(n) == decimal(m),
    ensures
        n == m,
    decreases n,
{
    lemma_decimal_digits(n / 10);
    lemma_decimal_digits(m / 10);
    if n < 10 && m < 10 {
        assert(decimal(n)[0] == digits()[n as int]);
        assert(decimal(m)[0] == digits()[m as int]);
    } else if n >= 10 && m >= 10 {
        let a = decimal(n / 10);
        let b = decimal(m / 10);
        assert(decimal(n).len() == a.len() + 1);
        assert(decimal(m).len() == b.len() + 1);
        assert(decimal(n)[a.len() as int] == digits()[(n % 10) as int]);
        assert(decimal(m)[b.len() as int] == digits()[(m % 10) as int]);
        assert(a =~= b) by {
            assert forall|i: int| 0 <= i < a.len() implies a[i] == b[i] by {
                assert(decimal(n)[i] == a[i]);
                assert(decimal(m)[i] == b[i]);
            }
        }
        lemma_decimal_injective(n / 10, m / 10);
    } else if n < 10 {
        assert(decimal(n).len() == 1);
        assert(decimal(m).len() == decimal(m / 10).len() + 1);
    } else {
        assert(decimal(m).len() == 1);
        assert(decimal(n).len() == decimal(n / 10).len() + 1);
    }
}

/// Where the parts of a tile's name stand in it: after the four characters
/// of `row-` the row's number, a hyphen where that number ends, the
/// column's number eight characters after that, and a full stop where the
/// column's number ends.
proof fn lemma_tile_name_parts(row: nat, column: nat)
    ensures
        ({
            let name = tile_name(row, column);
            let r = decimal(row + 1);
            let c = decimal(column + 1);
            let rn = r.len() as int;
            let cn = c.len() as int;
            &&& name.len() == 16 + rn + cn
            &&& forall|i: int| 0 <= i < rn ==> name[4 + i] == #[trigger] r[i]
            &&& name[4 + rn] == '-'
            &&& forall|i: int| 0 <= i < cn ==> name[12 + rn + i] == #[trigger] c[i]
            &&& name[12 + rn + cn] == '.'
        }),
{
    reveal_strlit("row-");
    reveal_strlit("-column-");
    reveal_strlit(".jpg");
    let r = decimal(row + 1);
    let c = decimal(column + 1);
    let rn = r.len() as int;
    let cn = c.len() as int;
    let head = "row-"@ + r;
    let middle = head + "-column-"@;
    let body = middle + c;
    let name = body + ".jpg"@;
    assert(name == tile_name(row, column));
    assert forall|i: int| 0 <= i < rn implies name[4 + i] == #[trigger] r[i] by {
        assert(head[4 + i] == r[i]);
        assert(middle[4 + i] == head[4 + i]);
        assert(body[4 + i] == middle[4 + i]);
    }
    assert(name[4 + rn] == '-') by {
        assert(middle[4 + rn] == "-column-"@[0]);
        assert(body[4 + rn] == middle[4 + rn]);
    }
    assert forall|i: int| 0 <= i < cn implies name[12 + rn + i] == #[trigger] c[i] by {
        assert(body[12 + rn + i] == c[i]);
    }
    assert(name[12 + rn + cn] == ".jpg"@[0]);
}

/// Different tiles have files of different names.
pub proof fn lemma_tile_names_distinct(row_a: nat, column_a: nat, row_b: nat, column_b: nat)
    requires
        row_a != row_b || column_a != column_b,
    ensures
        tile_name(row_a, column_a) != tile_name(row_b, column_b),
{
    let name_a = tile_name(row_a, column_a);
    let name_b = tile_name(row_b, column_b);
    let ra = decimal(row_a + 1);
    let rb = decimal(row_b + 1);
    let ca = decimal(column_a + 1);
    let cb = decimal(column_b + 1);
    let ran = ra.len() as int;
    let rbn = rb.len() as int;
    let can = ca.len() as int;
    let cbn = cb.len() as int;
    lemma_tile_name_parts(row_a, column_a);
    lemma_tile_name_parts(row_b, column_b);
    lemma_decimal_digits(row_a + 1);
    lemma_decimal_digits(row_b + 1);
    lemma_decimal_digits(column_a + 1);
    lemma_decimal_digits(column_b + 1);
    assert(!is_digit('-') && !is_digit('.'));
    if name_a == name_b {
        if ran < rbn {
            assert(is_digit(rb[ran]));
            assert(name_b[4 + ran] == rb[ran]);
            assert(false);
        }
        if rbn < ran {
            assert(is_digit(ra[rbn]));
            assert(name_a[4 + rbn] == ra[rbn]);
            assert(false);
        }
        assert(ra =~= rb) by {
            assert forall|i: int| 0 <= i < ran implies ra[i] == rb[i] by {
                assert(name_a[4 + i] == ra[i]);
                assert(name_b[4 + i] == rb[i]);
            }
        }
        lemma_decimal_injective(row_a + 1, row_b + 1);
        if can < cbn {
            assert(is_digit(cb[can]));
            assert(name_b[12 + rbn + can] == cb[can]);
            assert(false);
        }
        if cbn < can {
            assert(is_digit(ca[cbn]));
            assert(name_a[12 + ran + cbn] == ca[cbn]);
            assert(false);
        }
        assert(ca =~= cb) by {
            assert forall|i: int| 0 <= i < can implies ca[i] == cb[i] by {
                assert(name_a[12 + ran + i] == ca[i]);
                assert(name_b[12 + rbn + i] == cb[i]);
            }
        }
        lemma_decimal_injective(column_a + 1, column_b + 1);
    }
}

/// The file of a thumbnail is never taken for that of a tile, whatever the
/// image is called: the two names end differently.
pub proof fn lemma_thumbnail_is_no_tile(stem: Seq<char>, row: nat, column: nat)
    ensures
        thumbnail_name(stem) != tile_name(row, column),
{
    reveal_strlit("_low.JPG");
    reveal_strlit(".jpg");
    let thumb = thumbnail_name(stem);
    let tile = tile_name(row, column);
    assert(thumb[thumb.len() - 1] == 'G');
    assert(tile[tile.len() - 1] == 'g');
}

/// One digit as text.
fn digit(d: u64) -> (out: &'static str)
    requires
        d < 10,
    ensures
        out@ == seq![digits()[d as int]],
{
    proof {
        reveal_strlit("0");
        reveal_strlit("1");
        reveal_strlit("2");
        reveal_strlit("3");
        reveal_strlit("4");
        reveal_strlit("5");
        reveal_strlit("6");
        reveal_strlit("7");
        reveal_strlit("8");
        reveal_strlit("9");
    }
    let out = if d == 0 {
        "0"
    } else if d == 1 {
        "1"
    } else if d == 2 {
        "2"
    } else if d == 3 {
        "3"
    } else if d == 4 {
        "4"
    } else if d == 5 {
        "5"
    } else if d == 6 {
        "6"
    } else if d == 7 {
        "7"
    } else if d == 8 {
        "8"
    } else {
        "9"
    };
    assert(out@ =~= seq![digits()[d as int]]);
    out
}

/// Appends a number in decimal notation to a text.
pub fn push_decimal(text: &mut String, n: u64)
    ensures
        final(text)@ == old(text)@ + decimal(n as nat),
    decreases n,
{
    if n >= 10 {
        push_decimal(text, n / 10);
    }
    text.append(digit(n % 10));
    assert(final(text)@ =~= old(text)@ + decimal(n as nat));
}

/// Name of the file of the tile in row `row` and column `column`, both
/// counted from 0.
pub fn tile_file_name(row: u32, column: u32) -> (name: String)
    ensures
        name@ == tile_name(row as nat, column as nat),
{
    let mut name = String::from_str("row-");
    push_decimal(&mut name, row as u64 + 1);
    name.append("-column-");
    push_decimal(&mut name, column as u64 + 1);
    name.append(".jpg");
    name
}

/// Name of the thumbnail of the image called `stem`.
pub fn thumbnail_file_name(stem: &str) -> (name: String)
    ensures
        name@ == thumbnail_name(stem@),
{
    let mut name = String::from_str(stem);
    name.append("_low.JPG");
    name
}

} // verus!
