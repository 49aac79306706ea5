//! Storage accounting: per-partition entry counts and byte totals, laid out as a
//! fixed-width table.
use vstd::prelude::*;
use vstd::string::*;

verus! {

/// Width of each column of the usage table.
pub const COLUMN_WIDTH: usize = 30;

/// Sum of key length plus value length over the entries that could be read
/// (`None` marks an entry that could not).
pub open spec fn entry_bytes(entries: Seq<Option<(usize, usize)>>) -> int
    decreases entries.len(),
{
    if entries.len() == 0 {
        0
    } else {
        entry_bytes(entries.drop_last()) + match entries.last() {
            Some((k, v)) => k + v,
            None => 0int,
        }
    }
}

/// Usage of one storage partition.
pub struct PartitionUsage {
    pub name: String,
    pub elements: u64,
    pub bytes: u64,
}

/// Counts the entries of a partition and sums their key and value lengths.
/// `None` where the byte total does not fit in a `u64`.
pub fn measure_partition(name: String, entries: &Vec<Option<(usize, usize)>>) -> (r: Option<PartitionUsage>)
    ensures
        match r {
            Some(u) => u.name == name && u.elements == entries@.len() && u.bytes == entry_bytes(entries@),
            None => entry_bytes(entries@) > u64::MAX,
        },
{
    let mut total: u64 = 0;
    let mut i: usize = 0;
    while i < entries.len()
        invariant
            i <= entries@.len(),
            total == entry_bytes(entries@.subrange(0, i as int)),
        decreases entries@.len() - i,
    {
        assert(entries@.subrange(0, i as int) =~= entries@.subrange(0, i + 1).drop_last());
        let add: u64 = match entries[i] {
            Some((k, v)) => {
                let s = (k as u128) + (v as u128);
                if s > u64::MAX as u128 {
                    proof { lemma_entry_bytes_grows(entries@, i as int + 1); }
                    return None;
                }
                s as u64
            },
            None => 0,
        };
        match total.checked_add(add) {
            Some(t) => total = t,
            None => {
                proof { lemma_entry_bytes_grows(entries@, i as int + 1); }
                return None;
            },
        }
        i += 1;
    }
    assert(entries@.subrange(0, i as int) =~= entries@);
    let elements = entries.len() as u64;
    Some(PartitionUsage { name, elements, bytes: total })
}

/// The byte total of a prefix never exceeds that of the whole.
proof fn lemma_entry_bytes_grows(entries: Seq<Option<(usize, usize)>>, n: int)
    requires
        0 <= n <= entries.len(),
    ensures
        entry_bytes(entries.subrange(0, n)) <= entry_bytes(entries),
    decreases entries.len() - n,
{
    if n < entries.len() {
        lemma_entry_bytes_grows(entries, n + 1);
        assert(entries.subrange(0, n) =~= entries.subrange(0, n + 1).drop_last());
    } else {
        assert(entries.subrange(0, n) =~= entries);
    }
}

/// The digit character for `d < 10`.
pub open spec fn digit_char(d: nat) -> char {
    if d == 0 { '0' } else if d == 1 { '1' } else if d == 2 { '2' } else if d == 3 { '3' }
    else if d == 4 { '4' } else if d == 5 { '5' } else if d == 6 { '6' } else if d == 7 { '7' }
    else if d == 8 { '8' } else { '9' }
}

/// Decimal notation of `n`, without leading zeros.
pub open spec fn decimal(n: nat) -> Seq<char>
    decreases n,
{
    if n < 10 {
        seq![digit_char(n)]
    } else {
        decimal(n / 10) + seq![digit_char(n % 10)]
    }
}

/// `n` spaces.
pub open spec fn spaces(n: nat) -> Seq<char> {
    Seq::new(n, |i: int| ' ')
}

/// Trailing spaces that bring a value of length `len` to `width`; none where
/// the value is already that long.
pub open spec fn padding(width: nat, len: nat) -> nat {
    if len >= width { 0 } else { (width - len) as nat }
}

/// A value followed by its padding.
pub open spec fn cell(v: Seq<char>, width: nat) -> Seq<char> {
    v + spaces(padding(width, v.len()))
}

/// One line of the usage table: two padded columns and a last one.
pub open spec fn table_line(a: Seq<char>, b: Seq<char>, c: Seq<char>, width: nat) -> Seq<char> {
    cell(a, width) + cell(b, width) + c
}

pub open spec fn name_heading() -> Seq<char> {
    seq!['N', 'A', 'M', 'E']
}

pub open spec fn elements_heading() -> Seq<char> {
    seq!['E', 'L', 'E', 'M', 'E', 'N', 'T', 'S']
}

pub open spec fn bytes_heading() -> Seq<char> {
    seq!['B', 'Y', 'T', 'E', 'S']
}

fn digit_str(d: u64) -> (r: &'static str)
    requires
        d < 10,
    ensures
        r@ == seq![digit_char(d as nat)],
{
    proof {
        reveal_strlit("0"); reveal_strlit("1"); reveal_strlit("2"); reveal_strlit("3");
        reveal_strlit("4"); reveal_strlit("5"); reveal_strlit("6"); reveal_strlit("7");
        reveal_strlit("8"); reveal_strlit("9");
    }
    if d == 0 { "0" } else if d == 1 { "1" } else if d == 2 { "2" } else if d == 3 { "3" }
    else if d == 4 { "4" } else if d == 5 { "5" } else if d == 6 { "6" } else if d == 7 { "7" }
    else if d == 8 { "8" } else { "9" }
}

/// Decimal notation of `n`.
pub fn decimal_string(n: u64) -> (r: String)
    ensures
        r@ == decimal(n as nat),
{
    if n < 10 {
        return String::from_str(digit_str(n));
    }
    let mut acc = String::new();
    let mut m: u64 = n;
    while m > 0
        invariant
            m > 0 ==> decimal(n as nat) == decimal(m as nat) + acc@,
            m == 0 ==> decimal(n as nat) == acc@,
        decreases m,
    {
        let d = digit_str(m % 10);
        acc = String::from_str(d).concat(acc.as_str());
        proof {
            if m >= 10 {
                assert(decimal(m as nat) == decimal((m / 10) as nat) + seq![digit_char((m % 10) as nat)]);
                assert(decimal(n as nat) =~= decimal((m / 10) as nat) + acc@);
            } else {
                assert(decimal(n as nat) =~= acc@);
            }
        }
        m = m / 10;
    }
    acc
}

/// Appends `n` spaces.
fn push_spaces(s: &mut String, n: usize)
    ensures
        final(s)@ == old(s)@ + spaces(n as nat),
{
    proof { reveal_strlit(" "); }
    assert(" "@ =~= seq![' ']);
    let mut i: usize = 0;
    while i < n
        invariant
            i <= n,
            s@ == old(s)@ + spaces(i as nat),
            " "@ == seq![' '],
        decreases n - i,
    {
        s.append(" ");
        assert(s@ =~= old(s)@ + spaces((i + 1) as nat));
        i += 1;
    }
}

/// Appends `v` followed by the spaces that pad it to `width`.
fn push_cell(s: &mut String, v: &str, width: usize)
    ensures
        final(s)@ == old(s)@ + cell(v@, width as nat),
{
    let len = v.unicode_len();
    let pad = width.saturating_sub(len);
    s.append(v);
    push_spaces(s, pad);
    assert(s@ =~= old(s)@ + cell(v@, width as nat));
}

/// Builds one table line from its three fields.
fn line_of(a: &str, b: &str, c: &str, width: usize) -> (r: String)
    ensures
        r@ == table_line(a@, b@, c@, width as nat),
{
    let mut s = String::new();
    push_cell(&mut s, a, width);
    push_cell(&mut s, b, width);
    s.append(c);
    assert(s@ =~= table_line(a@, b@, c@, width as nat));
    s
}

/// The heading line of the usage table.
pub fn table_header(width: usize) -> (r: String)
    ensures
        r@ == table_line(name_heading(), elements_heading(), bytes_heading(), width as nat),
{
    proof {
        reveal_strlit("NAME");
        reveal_strlit("ELEMENTS");
        reveal_strlit("BYTES");
    }
    let r = line_of("NAME", "ELEMENTS", "BYTES", width);
    assert("NAME"@ =~= name_heading());
    assert("ELEMENTS"@ =~= elements_heading());
    assert("BYTES"@ =~= bytes_heading());
    r
}

/// The table line of one partition: its name, its entry count and its byte total.
pub fn table_row(usage: &PartitionUsage, width: usize) -> (r: String)
    ensures
        r@ == table_line(usage.name@, decimal(usage.elements as nat), decimal(usage.bytes as nat), width as nat),
{
    let elements = decimal_string(usage.elements);
    let bytes = decimal_string(usage.bytes);
    line_of(usage.name.as_str(), elements.as_str(), bytes.as_str(), width)
}

/// `s` with every space taken out.
pub open spec fn without_spaces(s: Seq<char>) -> Seq<char> {
    s.filter(|c: char| c != ' ')
}

proof fn lemma_spaces_vanish(n: nat)
    ensures
        without_spaces(spaces(n)) == Seq::<char>::empty(),
    decreases n,
{
    reveal(Seq::filter);
    if n > 0 {
        lemma_spaces_vanish((n - 1) as nat);
        assert(spaces(n).drop_last() =~= spaces((n - 1) as nat));
    } else {
        assert(spaces(n) =~= Seq::<char>::empty());
    }
}

/// The column width of the usage table changes only whitespace: with the spaces
/// taken out, a line reads the same at every width, and holds its fields one
/// after the other.
pub proof fn table_width_changes_only_whitespace(a: Seq<char>, b: Seq<char>, c: Seq<char>, w1: nat, w2: nat)
    ensures
        without_spaces(table_line(a, b, c, w1)) == without_spaces(table_line(a, b, c, w2)),
        without_spaces(table_line(a, b, c, w1)) == without_spaces(a) + without_spaces(b) + without_spaces(c),
{
    broadcast use Seq::filter_distributes_over_add;
    lemma_spaces_vanish(padding(w1, a.len()));
    lemma_spaces_vanish(padding(w1, b.len()));
    lemma_spaces_vanish(padding(w2, a.len()));
    lemma_spaces_vanish(padding(w2, b.len()));
    assert(without_spaces(table_line(a, b, c, w1)) =~= without_spaces(a) + without_spaces(b) + without_spaces(c));
    assert(without_spaces(table_line(a, b, c, w2)) =~= without_spaces(a) + without_spaces(b) + without_spaces(c));
}

} // verus!
