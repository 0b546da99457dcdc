use vstd::prelude::*;

verus! {

/// The longest line of pixel data, in bytes, the line feed not counted.
pub const LINE_LIMIT: usize = 70;

/// ASCII line feed.
pub const NEWLINE: u8 = 10;

/// ASCII space.
pub const SPACE: u8 = 32;

/// ASCII digit zero.
pub const DIGIT_ZERO: u8 = 48;

/// The decimal digits of `n` in ASCII, without leading zeros.
pub open spec fn digits(n: nat) -> Seq<u8>
    decreases n,
{
    if n < 10 {
        seq![(DIGIT_ZERO + n) as u8]
    } else {
        digits(n / 10).push((DIGIT_ZERO + n % 10) as u8)
    }
}

/// The text and the length of its last line after `token` is added to a row
/// of which `column` bytes stand on the last line: the first token of a row
/// stands alone, a later one follows a space, or a line feed where the space
/// and the token would carry the line over the limit.
pub open spec fn place(text: Seq<u8>, column: int, token: Seq<u8>) -> (Seq<u8>, int) {
    if column == 0 {
        (text + token, token.len() as int)
    } else if column + 1 + token.len() > LINE_LIMIT {
        (text.push(NEWLINE) + token, token.len() as int)
    } else {
        (text.push(SPACE) + token, column + 1 + token.len())
    }
}

/// The text of one row of channel values, and the length of its last line.
pub open spec fn laid_out(values: Seq<u8>) -> (Seq<u8>, int)
    decreases values.len(),
{
    if values.len() == 0 {
        (Seq::empty(), 0)
    } else {
        let before = laid_out(values.drop_last());
        place(before.0, before.1, digits(values.last() as nat))
    }
}

/// The text of one row of channel values: the numbers in decimal, separated
/// by single spaces, broken into lines of at most `LINE_LIMIT` bytes, without
/// a closing line feed.
pub open spec fn row_text(values: Seq<u8>) -> Seq<u8> {
    laid_out(values).0
}

/// The file header for an image of the given size.
pub open spec fn header_text(width: nat, height: nat) -> Seq<u8> {
    seq![80u8, 51u8, NEWLINE] + digits(width) + seq![SPACE] + digits(height) + seq![
        NEWLINE,
        50u8,
        53u8,
        53u8,
        NEWLINE,
    ]
}

/// A number in decimal has between one and twenty digits when it fits in 64
/// bits, and at most three when it is a byte.
pub proof fn lemma_digits_len(n: nat)
    ensures
        1 <= digits(n).len(),
        n < 10 ==> digits(n).len() == 1,
        10 <= n < 100 ==> digits(n).len() == 2,
        100 <= n < 1000 ==> digits(n).len() == 3,
    decreases n,
{
    if n >= 10 {
        lemma_digits_len(n / 10);
    }
}

/// Whether a line feed stands in `text` at some place from `from` up to,
/// but not at, `to`.
pub open spec fn has_break(text: Seq<u8>, from: int, to: int) -> bool {
    exists|k: int| from <= k < to && #[trigger] text[k] == NEWLINE
}

/// Whether no line of `text` is longer than the limit: a line feed stands
/// among any `LINE_LIMIT + 1` bytes in a row.
pub open spec fn within_limit(text: Seq<u8>) -> bool {
    forall|from: int|
        0 <= from && from + LINE_LIMIT < text.len() ==> #[trigger] has_break(
            text,
            from,
            from + LINE_LIMIT + 1,
        )
}

/// Whether `text` keeps its lines within the limit and its last line is
/// `column` bytes long.
pub open spec fn lines_kept(text: Seq<u8>, column: int) -> bool {
    &&& within_limit(text)
    &&& 0 <= column <= LINE_LIMIT
    &&& column <= text.len()
    &&& column == 0 ==> text.len() == 0
    &&& column < text.len() ==> text[text.len() - column - 1] == NEWLINE
}

/// Adding a token keeps the lines within the limit.
proof fn lemma_place_keeps_lines(text: Seq<u8>, column: int, token: Seq<u8>)
    requires
        lines_kept(text, column),
        1 <= token.len() <= 3,
    ensures
        lines_kept(place(text, column, token).0, place(text, column, token).1),
{
    let placed = place(text, column, token);
    let after = placed.0;
    if column == 0 {
        assert(after =~= token);
    } else if column + 1 + token.len() > LINE_LIMIT {
        assert(after[text.len() as int] == NEWLINE);
        assert forall|from: int| 0 <= from && from + LINE_LIMIT < after.len() implies #[trigger] has_break(
            after,
            from,
            from + LINE_LIMIT + 1,
        ) by {
            if from + LINE_LIMIT < text.len() {
                assert(has_break(text, from, from + LINE_LIMIT + 1));
                let k = choose|k: int| from <= k < from + LINE_LIMIT + 1 && text[k] == NEWLINE;
                assert(after[k] == NEWLINE);
            } else {
                assert(from <= text.len() < from + LINE_LIMIT + 1);
                assert(after[text.len() as int] == NEWLINE);
            }
        }
    } else {
        assert forall|from: int| 0 <= from && from + LINE_LIMIT < after.len() implies #[trigger] has_break(
            after,
            from,
            from + LINE_LIMIT + 1,
        ) by {
            if from + LINE_LIMIT < text.len() {
                assert(has_break(text, from, from + LINE_LIMIT + 1));
                let k = choose|k: int| from <= k < from + LINE_LIMIT + 1 && text[k] == NEWLINE;
                assert(after[k] == NEWLINE);
            } else {
                let k = text.len() - column - 1;
                assert(from <= k);
                assert(after[k] == NEWLINE);
            }
        }
        if column < text.len() {
            assert(after[after.len() - placed.1 - 1] == text[text.len() - column - 1]);
        }
    }
}

/// No line of a row's text is longer than the limit.
pub proof fn lemma_row_within_limit(values: Seq<u8>)
    ensures
        lines_kept(laid_out(values).0, laid_out(values).1),
        within_limit(row_text(values)),
    decreases values.len(),
{
    if values.len() > 0 {
        lemma_row_within_limit(values.drop_last());
        lemma_digits_len(values.last() as nat);
        let before = laid_out(values.drop_last());
        lemma_place_keeps_lines(before.0, before.1, digits(values.last() as nat));
    }
}

/// Ten to the power `k`.
pub open spec fn tens(k: nat) -> nat
    decreases k,
{
    if k == 0 {
        1
    } else {
        10 * tens((k - 1) as nat)
    }
}

/// A number below ten to the power `k` has at most `k` digits.
pub proof fn lemma_digits_at_most(n: nat, k: nat)
    requires
        k >= 1,
        n < tens(k),
    ensures
        digits(n).len() <= k,
    decreases k,
{
    if n >= 10 {
        assert(tens(1) == 10) by {
            assert(tens(0) == 1);
        }
        assert(k >= 2);
        lemma_digits_at_most(n / 10, (k - 1) as nat);
    }
}

/// A number that fits in 64 bits has at most twenty digits.
pub proof fn lemma_digits_of_word(n: nat)
    requires
        n <= 0xFFFF_FFFF_FFFF_FFFF,
    ensures
        1 <= digits(n).len() <= 20,
{
    lemma_digits_len(n);
    assert(tens(20) == 100_000_000_000_000_000_000) by {
        reveal_with_fuel(tens, 21);
    }
    lemma_digits_at_most(n, 20);
}

/// The header is shorter than one full line, and ends in a line feed.
pub proof fn lemma_header_lines(width: nat, height: nat)
    requires
        width <= 0xFFFF_FFFF_FFFF_FFFF,
        height <= 0xFFFF_FFFF_FFFF_FFFF,
    ensures
        within_limit(header_text(width, height)),
        header_text(width, height).len() > 0,
        header_text(width, height).last() == NEWLINE,
{
    lemma_digits_of_word(width);
    lemma_digits_of_word(height);
}

/// Text that is closed by a line feed and keeps its lines within the limit
/// still does so when text that keeps its lines within the limit follows.
pub proof fn lemma_lines_joined(first: Seq<u8>, second: Seq<u8>)
    requires
        within_limit(first),
        within_limit(second),
        first.len() > 0,
        first.last() == NEWLINE,
    ensures
        within_limit(first + second),
{
    let joined = first + second;
    assert forall|from: int| 0 <= from && from + LINE_LIMIT < joined.len() implies #[trigger] has_break(
        joined,
        from,
        from + LINE_LIMIT + 1,
    ) by {
        if from + LINE_LIMIT < first.len() {
            assert(has_break(first, from, from + LINE_LIMIT + 1));
            let k = choose|k: int| from <= k < from + LINE_LIMIT + 1 && first[k] == NEWLINE;
            assert(joined[k] == NEWLINE);
        } else if from < first.len() {
            assert(joined[first.len() - 1] == NEWLINE);
        } else {
            let shifted = from - first.len();
            assert(has_break(second, shifted, shifted + LINE_LIMIT + 1));
            let k = choose|k: int|
                shifted <= k < shifted + LINE_LIMIT + 1 && second[k] == NEWLINE;
            assert(joined[k + first.len()] == NEWLINE);
        }
    }
}

/// A row's text closed by a line feed keeps its lines within the limit.
pub proof fn lemma_closed_row_lines(values: Seq<u8>)
    ensures
        within_limit(row_text(values).push(NEWLINE)),
{
    lemma_row_within_limit(values);
    let text = row_text(values);
    let closed = text.push(NEWLINE);
    assert forall|from: int| 0 <= from && from + LINE_LIMIT < closed.len() implies #[trigger] has_break(
        closed,
        from,
        from + LINE_LIMIT + 1,
    ) by {
        if from + LINE_LIMIT < text.len() {
            assert(has_break(text, from, from + LINE_LIMIT + 1));
            let k = choose|k: int| from <= k < from + LINE_LIMIT + 1 && text[k] == NEWLINE;
            assert(closed[k] == NEWLINE);
        } else {
            assert(closed[text.len() as int] == NEWLINE);
        }
    }
}

/// The decimal digits of `n` in ASCII.
pub fn decimal(n: usize) -> (text: Vec<u8>)
    ensures
        text@ == digits(n as nat),
    decreases n,
{
    if n < 10 {
        let mut text: Vec<u8> = Vec::new();
        text.push(DIGIT_ZERO + (n as u8));
        assert(text@ =~= digits(n as nat));
        text
    } else {
        let mut text = decimal(n / 10);
        text.push(DIGIT_ZERO + ((n % 10) as u8));
        text
    }
}

/// The text of one row of channel values.
pub fn encode_row(values: &Vec<u8>) -> (text: Vec<u8>)
    ensures
        text@ == row_text(values@),
{
    let mut text: Vec<u8> = Vec::new();
    let mut column: usize = 0;
    let mut i: usize = 0;
    while i < values.len()
        invariant
            i <= values.len(),
            (text@, column as int) == laid_out(values@.take(i as int)),
            column <= LINE_LIMIT,
        decreases values.len() - i,
    {
        let token = decimal(values[i] as usize);
        proof {
            lemma_digits_len(values[i as int] as nat);
            assert(values@.take(i + 1).drop_last() =~= values@.take(i as int));
            assert(values@.take(i + 1).last() == values[i as int]);
        }
        if column == 0 {
            column = token.len();
        } else if column + 1 + token.len() > LINE_LIMIT {
            text.push(NEWLINE);
            column = token.len();
        } else {
            text.push(SPACE);
            column = column + 1 + token.len();
        }
        text.extend_from_slice(token.as_slice());
        i = i + 1;
    }
    assert(values@.take(values.len() as int) =~= values@);
    text
}

/// The file header for an image of the given size.
pub fn encode_header(width: usize, height: usize) -> (text: Vec<u8>)
    ensures
        text@ == header_text(width as nat, height as nat),
{
    let mut text: Vec<u8> = Vec::new();
    text.push(80u8);
    text.push(51u8);
    text.push(NEWLINE);
    let w = decimal(width);
    text.extend_from_slice(w.as_slice());
    text.push(SPACE);
    let h = decimal(height);
    text.extend_from_slice(h.as_slice());
    text.push(NEWLINE);
    text.push(50u8);
    text.push(53u8);
    text.push(53u8);
    text.push(NEWLINE);
    assert(text@ =~= header_text(width as nat, height as nat));
    text
}

/// A table from rows of channel values to their text, kept while one image
/// is encoded so that a row that recurs is laid out once.
///
/// It holds a `hashbrown::HashMap` with byte vectors as keys and values.
/// Nothing of the map is visible here but `row_cache_entries`.
#[verifier::external_body]
pub struct RowCache {
    map: hashbrown::HashMap<Vec<u8>, Vec<u8>>,
}

/// What a cache holds: the text stored under each row.
pub uninterp spec fn row_cache_entries(cache: RowCache) -> Map<Seq<u8>, Seq<u8>>;

/// `hashbrown::HashMap::new`: a map without entries, so that no key is in it.
#[verifier::external_body]
pub(crate) fn row_cache_new() -> (cache: RowCache)
    ensures
        row_cache_entries(cache).dom() == Set::<Seq<u8>>::empty(),
{
    RowCache { map: hashbrown::HashMap::new() }
}

/// `hashbrown::HashMap::contains_key`: whether an entry stands under the
/// key. Keys are compared as byte sequences.
#[verifier::external_body]
pub(crate) fn row_cache_contains(cache: &RowCache, row: &Vec<u8>) -> (found: bool)
    ensures
        found == row_cache_entries(*cache).contains_key(row@),
{
    cache.map.contains_key(row)
}

/// `hashbrown::HashMap::insert`: afterwards the value stands under the key
/// and every other entry is as before. The value that stood there before, if
/// any, is handed back.
#[verifier::external_body]
pub(crate) fn row_cache_insert(cache: &mut RowCache, row: Vec<u8>, text: Vec<u8>) -> (previous:
    Option<Vec<u8>>)
    ensures
        row_cache_entries(*final(cache)) == row_cache_entries(*old(cache)).insert(row@, text@),
        previous.is_some() == row_cache_entries(*old(cache)).contains_key(row@),
        previous.is_some() ==> previous.unwrap()@ == row_cache_entries(*old(cache))[row@],
{
    cache.map.insert(row, text)
}

/// `hashbrown::HashMap::get`: the value under the key, or nothing where no
/// entry stands under it.
#[verifier::external_body]
pub(crate) fn row_cache_get<'a>(cache: &'a RowCache, row: &Vec<u8>) -> (text: Option<&'a Vec<u8>>)
    ensures
        text.is_some() == row_cache_entries(*cache).contains_key(row@),
        text.is_some() ==> text.unwrap()@ == row_cache_entries(*cache)[row@],
{
    cache.map.get(row)
}

/// Whether every entry of the cache is the text of its row.
pub open spec fn row_cache_sound(cache: RowCache) -> bool {
    forall|row: Seq<u8>| #[trigger]
        row_cache_entries(cache).contains_key(row) ==> row_cache_entries(cache)[row] == row_text(
            row,
        )
}

/// Appends the text of `row` to `out`, laying the row out only if the cache
/// does not hold it yet.
pub(crate) fn append_row(out: &mut Vec<u8>, cache: &mut RowCache, row: Vec<u8>)
    requires
        row_cache_sound(*old(cache)),
    ensures
        row_cache_sound(*final(cache)),
        final(out)@ == old(out)@ + row_text(row@),
{
    if !row_cache_contains(cache, &row) {
        let text = encode_row(&row);
        let key = row.clone();
        assert(key@ =~= row@);
        let _ = row_cache_insert(cache, key, text);
    }
    match row_cache_get(cache, &row) {
        Some(text) => {
            out.extend_from_slice(text.as_slice());
        },
        None => {
            assert(false);
        },
    }
}

} // verus!
