//! The rules of the data files: where a file's backup goes, which copy a read
//! takes, and how record ids are written.
use vstd::prelude::*;
use crate::expr::{nat_to_seq, push_nat_digits};
use crate::text::{chars_of, extend_chars, string_of};
use crate::verify::lit;

verus! {

/// Whether a file name has an extension: a dot other than its first character.
pub open spec fn has_extension(name: Seq<char>) -> bool {
    exists|k: int| 0 < k < name.len() && name[k] == '.'
}

/// The name of a file's backup: the name with `.bak` after its extension, or
/// with `.data.bak` when it has none.
pub open spec fn backup_name_spec(name: Seq<char>) -> Seq<char> {
    if has_extension(name) {
        name + ".bak"@
    } else {
        name + ".data.bak"@
    }
}

pub fn backup_file_name(name: &str) -> (r: String)
    ensures
        r@ == backup_name_spec(name@),
{
    let v = chars_of(name);
    let mut out = chars_of(name);
    if v.len() == 0 {
        extend_chars(&mut out, ".data.bak");
        return string_of(&out);
    }
    let mut k: usize = 1;
    let mut found = false;
    while k < v.len()
        invariant
            1 <= k <= v.len(),
            v@ == name@,
            found == exists|j: int| 0 < j < k && name@[j] == '.',
        decreases v.len() - k,
    {
        if v[k] == '.' {
            found = true;
        }
        k = k + 1;
    }
    if found {
        extend_chars(&mut out, ".bak");
    } else {
        proof {
            assert forall|j: int| 0 < j < name@.len() implies name@[j] != '.' by {
                assert(j < k);
            }
        }
        extend_chars(&mut out, ".data.bak");
    }
    string_of(&out)
}

/// The first error met when a copy was read: the main file's, else the backup's.
pub open spec fn first_error<T>(primary: Option<Result<T, String>>, backup: Option<Result<T, String>>) -> Option<Seq<char>> {
    match primary {
        Some(Err(e)) => Some(e@),
        _ => match backup {
            Some(Err(e)) => Some(e@),
            _ => None,
        },
    }
}

/// What a read of a data file gives, from what reading its main file and its
/// backup gave (`None` where that copy does not exist): the main file's value
/// when it parsed, else the backup's; when neither parsed, the first error,
/// or nothing when neither copy exists.
pub fn pick_readable<T>(primary: Option<Result<T, String>>, backup: Option<Result<T, String>>) -> (r: Result<Option<T>, String>)
    ensures
        primary matches Some(Ok(v)) ==> (r matches Ok(Some(x)) && x == v),
        !(primary matches Some(Ok(_))) ==> (backup matches Some(Ok(v)) ==> (r matches Ok(Some(x)) && x == v)),
        !(primary matches Some(Ok(_))) && !(backup matches Some(Ok(_))) ==> match first_error(primary, backup) {
            Some(e) => r matches Err(m) && m@ == "数据文件及备份均无法读取: "@ + e,
            None => r matches Ok(None),
        },
{
    let mut error: Option<String> = None;
    match primary {
        Some(Ok(v)) => return Ok(Some(v)),
        Some(Err(e)) => error = Some(e),
        None => {},
    }
    match backup {
        Some(Ok(v)) => return Ok(Some(v)),
        Some(Err(e)) => {
            if error.is_none() {
                error = Some(e);
            }
        },
        None => {},
    }
    match error {
        Some(e) => {
            let mut m = chars_of("数据文件及备份均无法读取: ");
            extend_chars(&mut m, e.as_str());
            Err(string_of(&m))
        },
        None => Ok(None),
    }
}

/// The lower-case hexadecimal digit of `k` (below 16).
pub open spec fn hex_char(k: int) -> char {
    if k < 10 {
        ((48 + k) as u8) as char
    } else {
        ((87 + k) as u8) as char
    }
}

/// The lower-case hexadecimal digits of `n`, without leading zeros.
pub open spec fn hex_seq(n: nat) -> Seq<char>
    decreases n,
{
    if n < 16 {
        seq![hex_char(n as int)]
    } else {
        hex_seq(n / 16).push(hex_char((n % 16) as int))
    }
}

fn push_hex_digits(out: &mut Vec<char>, n: u128)
    ensures
        final(out)@ == old(out)@ + hex_seq(n as nat),
    decreases n,
{
    if n < 16 {
        push_hex_digit(out, n);
        assert(final(out)@ =~= old(out)@ + hex_seq(n as nat));
    } else {
        push_hex_digits(out, n / 16);
        push_hex_digit(out, n % 16);
        assert(final(out)@ =~= old(out)@ + hex_seq(n as nat));
    }
}

fn push_hex_digit(out: &mut Vec<char>, k: u128)
    requires
        k < 16,
    ensures
        final(out)@ == old(out)@.push(hex_char(k as int)),
{
    let b: u8 = if k < 10 { 48u8 + (k as u8) } else { 87u8 + (k as u8) };
    out.push(b as char);
}

/// The id of a record: its prefix, the process id, the time in nanoseconds
/// (hexadecimal) and the count of ids made so far (hexadecimal), joined by `-`.
pub open spec fn unique_id_spec(prefix: Seq<char>, pid: u32, nanos: u128, counter: u64) -> Seq<char> {
    prefix + "-"@ + nat_to_seq(pid as nat) + "-"@ + hex_seq(nanos as nat) + "-"@ + hex_seq(counter as nat)
}

pub fn format_unique_id(prefix: &str, pid: u32, nanos: u128, counter: u64) -> (r: String)
    ensures
        r@ == unique_id_spec(prefix@, pid, nanos, counter),
{
    let mut v = chars_of(prefix);
    extend_chars(&mut v, "-");
    push_nat_digits(&mut v, pid as u128);
    extend_chars(&mut v, "-");
    push_hex_digits(&mut v, nanos);
    extend_chars(&mut v, "-");
    push_hex_digits(&mut v, counter as u128);
    string_of(&v)
}

/// What follows the last `-` of a text (all of it when it has none).
pub open spec fn after_last_dash(s: Seq<char>) -> Seq<char>
    decreases s.len(),
{
    if s.len() == 0 {
        s
    } else if s.last() == '-' {
        Seq::empty()
    } else {
        after_last_dash(s.drop_last()).push(s.last())
    }
}

/// The value of a run of hexadecimal digits.
pub open spec fn hex_value(s: Seq<char>) -> int
    decreases s.len(),
{
    if s.len() == 0 {
        0
    } else {
        hex_value(s.drop_last()) * 16 + if (s.last() as int) < 58 {
            s.last() as int - 48
        } else {
            s.last() as int - 87
        }
    }
}

proof fn lemma_hex_char(k: int)
    requires
        0 <= k < 16,
    ensures
        (hex_char(k) as int) == if k < 10 { 48 + k } else { 87 + k },
{
    if k < 10 {
        assert(((48 + k) as u8) as int == 48 + k);
        assert((((48 + k) as u8) as char) as int == 48 + k);
    } else {
        assert(((87 + k) as u8) as int == 87 + k);
        assert((((87 + k) as u8) as char) as int == 87 + k);
    }
}

proof fn lemma_hex_value(n: nat)
    ensures
        hex_value(hex_seq(n)) == n,
        forall|i: int| 0 <= i < hex_seq(n).len() ==> #[trigger] hex_seq(n)[i] != '-',
    decreases n,
{
    if n < 16 {
        lemma_hex_char(n as int);
        assert(hex_seq(n).drop_last() =~= Seq::<char>::empty());
        assert(hex_value(Seq::<char>::empty()) == 0);
    } else {
        lemma_hex_char((n % 16) as int);
        lemma_hex_value(n / 16);
        assert(hex_seq(n).drop_last() =~= hex_seq(n / 16));
        vstd::arithmetic::div_mod::lemma_fundamental_div_mod(n as int, 16);
        assert((n / 16) * 16 == 16 * (n / 16)) by (nonlinear_arith);
        assert forall|i: int| 0 <= i < hex_seq(n).len() implies #[trigger] hex_seq(n)[i] != '-' by {
            if i < hex_seq(n / 16).len() {
                assert(hex_seq(n)[i] == hex_seq(n / 16)[i]);
            }
        }
    }
}

proof fn lemma_after_last_dash(a: Seq<char>, h: Seq<char>)
    requires
        forall|i: int| 0 <= i < h.len() ==> #[trigger] h[i] != '-',
    ensures
        after_last_dash(a + "-"@ + h) == h,
    decreases h.len(),
{
    reveal_strlit("-");
    let s = a + "-"@ + h;
    if h.len() == 0 {
        assert(s.last() == '-');
        assert(after_last_dash(s) =~= h);
    } else {
        let d = h.drop_last();
        assert forall|i: int| 0 <= i < d.len() implies #[trigger] d[i] != '-' by {
            assert(d[i] == h[i]);
        }
        lemma_after_last_dash(a, d);
        assert(s.drop_last() =~= a + "-"@ + d);
        assert(s.last() == h.last());
        assert(after_last_dash(s) =~= h);
    }
}

/// Ids made with different counts never collide, whatever their prefixes,
/// process ids and times.
pub proof fn lemma_unique_ids_differ(
    prefix1: Seq<char>,
    pid1: u32,
    nanos1: u128,
    counter1: u64,
    prefix2: Seq<char>,
    pid2: u32,
    nanos2: u128,
    counter2: u64,
)
    requires
        counter1 != counter2,
    ensures
        unique_id_spec(prefix1, pid1, nanos1, counter1) != unique_id_spec(prefix2, pid2, nanos2, counter2),
{
    lemma_hex_value(counter1 as nat);
    lemma_hex_value(counter2 as nat);
    let a1 = prefix1 + "-"@ + nat_to_seq(pid1 as nat) + "-"@ + hex_seq(nanos1 as nat);
    let a2 = prefix2 + "-"@ + nat_to_seq(pid2 as nat) + "-"@ + hex_seq(nanos2 as nat);
    lemma_after_last_dash(a1, hex_seq(counter1 as nat));
    lemma_after_last_dash(a2, hex_seq(counter2 as nat));
    assert(unique_id_spec(prefix1, pid1, nanos1, counter1) == a1 + "-"@ + hex_seq(counter1 as nat));
    assert(unique_id_spec(prefix2, pid2, nanos2, counter2) == a2 + "-"@ + hex_seq(counter2 as nat));
}

} // verus!
