use vstd::prelude::*;

verus! {

/// The recognized fields of one list slot.
#[derive(Debug)]
pub struct ArtifactRecord {
    pub slot: u32,
    pub name: String,
    pub main_stat_name: String,
    pub main_stat_value: String,
    pub sub_stat_1: String,
    pub sub_stat_2: String,
    pub sub_stat_3: String,
    pub sub_stat_4: String,
    pub equip: String,
    pub level: u32,
    pub star: u32,
    pub locked: bool,
}

/// Two records show the same item: every recognized field agrees (the slot index aside).
pub open spec fn same_item(a: ArtifactRecord, b: ArtifactRecord) -> bool {
    &&& a.name@ == b.name@
    &&& a.main_stat_name@ == b.main_stat_name@
    &&& a.main_stat_value@ == b.main_stat_value@
    &&& a.sub_stat_1@ == b.sub_stat_1@
    &&& a.sub_stat_2@ == b.sub_stat_2@
    &&& a.sub_stat_3@ == b.sub_stat_3@
    &&& a.sub_stat_4@ == b.sub_stat_4@
    &&& a.equip@ == b.equip@
    &&& a.level == b.level
    &&& a.star == b.star
    &&& a.locked == b.locked
}

/// A record meets the minimum star and level filters.
pub open spec fn passes(r: ArtifactRecord, min_star: u32, min_level: u32) -> bool {
    r.star >= min_star && r.level >= min_level
}

impl ArtifactRecord {
    /// A copy of the record.
    pub fn duplicate(&self) -> (r: ArtifactRecord)
        ensures
            r == *self,
    {
        ArtifactRecord {
            slot: self.slot,
            name: self.name.clone(),
            main_stat_name: self.main_stat_name.clone(),
            main_stat_value: self.main_stat_value.clone(),
            sub_stat_1: self.sub_stat_1.clone(),
            sub_stat_2: self.sub_stat_2.clone(),
            sub_stat_3: self.sub_stat_3.clone(),
            sub_stat_4: self.sub_stat_4.clone(),
            equip: self.equip.clone(),
            level: self.level,
            star: self.star,
            locked: self.locked,
        }
    }

    /// Whether two records show the same item.
    pub fn same_item_as(&self, other: &ArtifactRecord) -> (r: bool)
        ensures
            r == same_item(*self, *other),
    {
        self.name == other.name && self.main_stat_name == other.main_stat_name
            && self.main_stat_value == other.main_stat_value && self.sub_stat_1 == other.sub_stat_1
            && self.sub_stat_2 == other.sub_stat_2 && self.sub_stat_3 == other.sub_stat_3
            && self.sub_stat_4 == other.sub_stat_4 && self.equip == other.equip && self.level
            == other.level && self.star == other.star && self.locked == other.locked
    }

    /// Whether the record meets the minimum star and level filters.
    pub fn passes_filter(&self, min_star: u32, min_level: u32) -> (r: bool)
        ensures
            r == passes(*self, min_star, min_level),
    {
        self.star >= min_star && self.level >= min_level
    }
}

pub open spec fn is_digit(c: char) -> bool {
    '0' <= c && c <= '9'
}

/// The number that a run of decimal digits writes.
pub open spec fn digits_value(s: Seq<char>) -> int
    decreases s.len(),
{
    if s.len() == 0 {
        0
    } else {
        digits_value(s.drop_last()) * 10 + (s.last() as int - '0' as int)
    }
}

/// The digits of a level text: what follows an optional leading `+`.
pub open spec fn level_digits(s: Seq<char>) -> Seq<char> {
    if s.len() > 0 && s[0] == '+' {
        s.subrange(1, s.len() as int)
    } else {
        s
    }
}

/// The number a text of one or more decimal digits writes, when it fits in `u32`.
pub open spec fn decimal_of(d: Seq<char>) -> Option<u32> {
    if d.len() > 0 && (forall|i: int| 0 <= i < d.len() ==> is_digit(#[trigger] d[i]))
        && digits_value(d) <= u32::MAX {
        Some(digits_value(d) as u32)
    } else {
        None
    }
}

/// The level a recognized level text shows, such as `+20`; `None` unless it is an optional
/// `+` and then one or more decimal digits whose value fits in `u32`.
pub open spec fn level_of(s: Seq<char>) -> Option<u32> {
    decimal_of(level_digits(s))
}

proof fn lemma_digits_value_nonneg(s: Seq<char>)
    requires
        forall|i: int| 0 <= i < s.len() ==> is_digit(#[trigger] s[i]),
    ensures
        digits_value(s) >= 0,
    decreases s.len(),
{
    if s.len() > 0 {
        lemma_digits_value_nonneg(s.drop_last());
    }
}

proof fn lemma_digits_value_grows(s: Seq<char>, n: int)
    requires
        0 <= n < s.len(),
        forall|i: int| 0 <= i < s.len() ==> is_digit(#[trigger] s[i]),
    ensures
        digits_value(s.subrange(0, n)) <= digits_value(s.subrange(0, n + 1)),
{
    assert(s.subrange(0, n + 1).drop_last() =~= s.subrange(0, n));
    lemma_digits_value_nonneg(s.subrange(0, n));
    assert(is_digit(s[n]));
}

proof fn lemma_digits_value_prefix_bound(s: Seq<char>, n: int)
    requires
        0 <= n <= s.len(),
        forall|i: int| 0 <= i < s.len() ==> is_digit(#[trigger] s[i]),
    ensures
        digits_value(s.subrange(0, n)) <= digits_value(s),
    decreases s.len() - n,
{
    if n < s.len() {
        lemma_digits_value_grows(s, n);
        lemma_digits_value_prefix_bound(s, n + 1);
    } else {
        assert(s.subrange(0, n) =~= s);
    }
}

/// Reads the level out of its recognized text.
pub fn parse_level(text: &str) -> (r: Option<u32>)
    ensures
        r == level_of(text@),
{
    let n = text.unicode_len();
    let start: usize = if n > 0 && text.get_char(0) == '+' { 1 } else { 0 };
    let ghost d = level_digits(text@);
    assert(d =~= text@.subrange(start as int, n as int));
    if start >= n {
        return None;
    }
    let mut v: u64 = 0;
    let mut i: usize = start;
    while i < n
        invariant
            start <= i <= n,
            n == text@.len(),
            d == text@.subrange(start as int, n as int),
            d == level_digits(text@),
            forall|j: int| 0 <= j < i - start ==> is_digit(#[trigger] d[j]),
            v == digits_value(d.subrange(0, i - start)),
            v <= u32::MAX,
        decreases n - i,
    {
        let c = text.get_char(i);
        if c < '0' || c > '9' {
            assert(!is_digit(d[i - start]));
            return None;
        }
        let ghost k = (i - start) as int;
        assert(d.subrange(0, k + 1).drop_last() =~= d.subrange(0, k));
        assert(d.subrange(0, k + 1).last() == c);
        let digit = (c as u32 - '0' as u32) as u64;
        v = v * 10 + digit;
        i = i + 1;
        if v > 0xffff_ffff {
            proof {
                if forall|j: int| 0 <= j < d.len() ==> is_digit(#[trigger] d[j]) {
                    lemma_digits_value_prefix_bound(d, i - start);
                }
            }
            return None;
        }
    }
    assert(d.subrange(0, d.len() as int) =~= d);
    Some(v as u32)
}

/// Reads a number written in decimal digits only.
pub fn parse_decimal(text: &str) -> (r: Option<u32>)
    ensures
        r == decimal_of(text@),
{
    let n = text.unicode_len();
    if n > 0 && text.get_char(0) == '+' {
        assert(!is_digit(text@[0]));
        return None;
    }
    assert(level_digits(text@) == text@);
    parse_level(text)
}

/// Index of the first `/` at or after `i`, or the length when there is none.
pub open spec fn first_slash(s: Seq<char>, i: nat) -> nat
    decreases s.len() - i,
{
    if i >= s.len() {
        s.len()
    } else if s[i as int] == '/' {
        i
    } else {
        first_slash(s, i + 1)
    }
}

/// Where the run of digits that ends just before index `k` starts.
pub open spec fn digit_run_start(s: Seq<char>, k: nat) -> nat
    decreases k,
{
    if k == 0 || k > s.len() || !is_digit(s[k - 1]) {
        k
    } else {
        digit_run_start(s, (k - 1) as nat)
    }
}

/// The item count a recognized counter text shows, such as `Artifacts 1234/1500`: the
/// digits right before the first `/`. `None` when there is no `/`, no digit right before
/// it, or the number does not fit in `u32`.
pub open spec fn count_of(s: Seq<char>) -> Option<u32> {
    let k = first_slash(s, 0);
    let a = digit_run_start(s, k);
    if k < s.len() && a < k && digits_value(s.subrange(a as int, k as int)) <= u32::MAX {
        Some(digits_value(s.subrange(a as int, k as int)) as u32)
    } else {
        None
    }
}

proof fn lemma_first_slash(s: Seq<char>, i: nat)
    requires
        i <= s.len(),
    ensures
        i <= first_slash(s, i) <= s.len(),
        first_slash(s, i) < s.len() ==> s[first_slash(s, i) as int] == '/',
        forall|j: int| i <= j < first_slash(s, i) ==> s[j] != '/',
    decreases s.len() - i,
{
    if i < s.len() && s[i as int] != '/' {
        lemma_first_slash(s, i + 1);
    }
}

proof fn lemma_digit_run_start(s: Seq<char>, k: nat)
    requires
        k <= s.len(),
    ensures
        digit_run_start(s, k) <= k,
        forall|j: int| digit_run_start(s, k) <= j < k ==> is_digit(#[trigger] s[j]),
    decreases k,
{
    if k > 0 && is_digit(s[k - 1]) {
        lemma_digit_run_start(s, (k - 1) as nat);
    }
}

/// Reads the item count out of the recognized counter text.
pub fn parse_count(text: &str) -> (r: Option<u32>)
    ensures
        r == count_of(text@),
{
    let n = text.unicode_len();
    let mut k: usize = 0;
    while k < n && text.get_char(k) != '/'
        invariant
            n == text@.len(),
            k <= n,
            first_slash(text@, 0) == first_slash(text@, k as nat),
        decreases n - k,
    {
        k = k + 1;
    }
    if k >= n {
        return None;
    }
    let mut a: usize = k;
    while a > 0 && text.get_char(a - 1) >= '0' && text.get_char(a - 1) <= '9'
        invariant
            n == text@.len(),
            a <= k < n,
            digit_run_start(text@, k as nat) == digit_run_start(text@, a as nat),
        decreases a,
    {
        a = a - 1;
    }
    proof {
        lemma_digit_run_start(text@, k as nat);
    }
    assert(first_slash(text@, k as nat) == k);
    assert(digit_run_start(text@, a as nat) == a);
    let ghost d = text@.subrange(a as int, k as int);
    if a == k {
        return None;
    }
    let mut v: u64 = 0;
    let mut i: usize = a;
    while i < k
        invariant
            a <= i <= k < n,
            n == text@.len(),
            d == text@.subrange(a as int, k as int),
            first_slash(text@, 0) == k,
            digit_run_start(text@, k as nat) == a,
            forall|j: int| 0 <= j < d.len() ==> is_digit(#[trigger] d[j]),
            v == digits_value(d.subrange(0, i - a)),
            v <= u32::MAX,
        decreases k - i,
    {
        let c = text.get_char(i);
        let ghost j = (i - a) as int;
        assert(d.subrange(0, j + 1).drop_last() =~= d.subrange(0, j));
        assert(d.subrange(0, j + 1).last() == c);
        assert(is_digit(d[j]));
        v = v * 10 + (c as u32 - '0' as u32) as u64;
        i = i + 1;
        if v > 0xffff_ffff {
            proof {
                lemma_digits_value_prefix_bound(d, i - a);
            }
            return None;
        }
    }
    assert(d.subrange(0, d.len() as int) =~= d);
    Some(v as u32)
}

} // verus!
