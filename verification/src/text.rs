//! Character-sequence utilities behind the matching logic: ASCII
//! lower-casing, removal of bracketed qualifiers, whitespace
//! normalisation, and a normalised edit-distance.
use vstd::prelude::*;
use vstd::string::*;

verus! {

// ---------------------------------------------------------------------------
// Specification: cleaning a title.
// ---------------------------------------------------------------------------

/// ASCII lower-casing of one character; everything else is unchanged.
pub open spec fn lower_char(c: char) -> char {
    if 65 <= c as u32 && c as u32 <= 90 {
        (((c as u32) + 32) as u8) as char
    } else {
        c
    }
}

pub open spec fn lower_seq(s: Seq<char>) -> Seq<char> {
    s.map_values(|c: char| lower_char(c))
}

pub open spec fn is_bracket(c: char) -> bool {
    c == '(' || c == ')' || c == '[' || c == ']'
}

pub open spec fn is_open_bracket(c: char) -> bool {
    c == '(' || c == '['
}

pub open spec fn is_close_bracket(c: char) -> bool {
    c == ')' || c == ']'
}

/// Drops every bracketed segment together with the brackets themselves;
/// an unmatched closing bracket is dropped as well.
pub open spec fn strip_rec(s: Seq<char>, depth: nat) -> Seq<char>
    decreases s.len(),
{
    if s.len() == 0 {
        Seq::<char>::empty()
    } else {
        let c = s[0];
        let rest = s.drop_first();
        if is_open_bracket(c) {
            strip_rec(rest, depth + 1)
        } else if is_close_bracket(c) {
            strip_rec(rest, if depth > 0 { (depth - 1) as nat } else { 0 })
        } else if depth > 0 {
            strip_rec(rest, depth)
        } else {
            seq![c] + strip_rec(rest, 0)
        }
    }
}

pub open spec fn strip_brackets(s: Seq<char>) -> Seq<char> {
    strip_rec(s, 0)
}

/// Collapses every run of spaces to a single space.
pub open spec fn collapse_rec(s: Seq<char>) -> Seq<char>
    decreases s.len(),
{
    if s.len() == 0 {
        Seq::<char>::empty()
    } else if s[0] == ' ' && s.len() > 1 && s[1] == ' ' {
        collapse_rec(s.drop_first())
    } else {
        seq![s[0]] + collapse_rec(s.drop_first())
    }
}

pub open spec fn trim_front(s: Seq<char>) -> Seq<char> {
    if s.len() > 0 && s[0] == ' ' {
        s.drop_first()
    } else {
        s
    }
}

pub open spec fn trim_back(s: Seq<char>) -> Seq<char> {
    if s.len() > 0 && s[s.len() - 1] == ' ' {
        s.drop_last()
    } else {
        s
    }
}

pub open spec fn normspace(s: Seq<char>) -> Seq<char> {
    trim_back(trim_front(collapse_rec(s)))
}

/// The cleaned form of a title: lower-cased, bracketed qualifiers removed,
/// whitespace collapsed and trimmed.
pub open spec fn clean_spec(s: Seq<char>) -> Seq<char> {
    normspace(strip_brackets(lower_seq(s)))
}

// ---------------------------------------------------------------------------
// Shape predicates for the idempotence proof.
// ---------------------------------------------------------------------------

pub open spec fn all_lower(s: Seq<char>) -> bool {
    forall|i: int| 0 <= i < s.len() ==> lower_char(#[trigger] s[i]) == s[i]
}

pub open spec fn no_brackets(s: Seq<char>) -> bool {
    forall|i: int| 0 <= i < s.len() ==> !is_bracket(#[trigger] s[i])
}

pub open spec fn no_double_space(s: Seq<char>) -> bool {
    forall|i: int| 0 <= i < s.len() - 1 ==> !(#[trigger] s[i] == ' ' && s[i + 1] == ' ')
}

pub open spec fn space_normal(s: Seq<char>) -> bool {
    no_double_space(s) && (s.len() > 0 ==> s[0] != ' ' && s[s.len() - 1] != ' ')
}

// ---------------------------------------------------------------------------
// Lemmas.
// ---------------------------------------------------------------------------

proof fn lemma_lower_char_stable(c: char)
    ensures
        lower_char(lower_char(c)) == lower_char(c),
{
}

proof fn lemma_lower_seq_all_lower(s: Seq<char>)
    ensures
        all_lower(lower_seq(s)),
{
    assert forall|i: int| 0 <= i < lower_seq(s).len() implies lower_char(
        #[trigger] lower_seq(s)[i],
    ) == lower_seq(s)[i] by {
        lemma_lower_char_stable(s[i]);
    }
}

proof fn lemma_lower_seq_identity(s: Seq<char>)
    requires
        all_lower(s),
    ensures
        lower_seq(s) == s,
{
    assert(lower_seq(s) =~= s);
}

proof fn lemma_strip_no_brackets(s: Seq<char>, depth: nat)
    ensures
        no_brackets(strip_rec(s, depth)),
    decreases s.len(),
{
    if s.len() == 0 {
    } else {
        let c = s[0];
        let rest = s.drop_first();
        if is_open_bracket(c) {
            lemma_strip_no_brackets(rest, depth + 1);
        } else if is_close_bracket(c) {
            lemma_strip_no_brackets(rest, if depth > 0 { (depth - 1) as nat } else { 0 });
        } else if depth > 0 {
            lemma_strip_no_brackets(rest, depth);
        } else {
            lemma_strip_no_brackets(rest, 0);
            assert(strip_rec(s, depth) == seq![c] + strip_rec(rest, 0));
        }
    }
}

proof fn lemma_strip_identity(s: Seq<char>)
    requires
        no_brackets(s),
    ensures
        strip_rec(s, 0) == s,
    decreases s.len(),
{
    if s.len() == 0 {
        assert(strip_rec(s, 0) =~= s);
    } else {
        let rest = s.drop_first();
        assert(no_brackets(rest));
        lemma_strip_identity(rest);
        assert(strip_rec(s, 0) =~= s);
    }
}

proof fn lemma_strip_all_lower(s: Seq<char>, depth: nat)
    requires
        all_lower(s),
    ensures
        all_lower(strip_rec(s, depth)),
    decreases s.len(),
{
    if s.len() == 0 {
    } else {
        let c = s[0];
        let rest = s.drop_first();
        assert(all_lower(rest));
        if is_open_bracket(c) {
            lemma_strip_all_lower(rest, depth + 1);
        } else if is_close_bracket(c) {
            lemma_strip_all_lower(rest, if depth > 0 { (depth - 1) as nat } else { 0 });
        } else if depth > 0 {
            lemma_strip_all_lower(rest, depth);
        } else {
            lemma_strip_all_lower(rest, 0);
            assert(strip_rec(s, depth) == seq![c] + strip_rec(rest, 0));
        }
    }
}

proof fn lemma_collapse_preserves(s: Seq<char>)
    ensures
        all_lower(s) ==> all_lower(collapse_rec(s)),
        no_brackets(s) ==> no_brackets(collapse_rec(s)),
    decreases s.len(),
{
    if s.len() == 0 {
    } else {
        let rest = s.drop_first();
        lemma_collapse_preserves(rest);
        if s[0] == ' ' && s.len() > 1 && s[1] == ' ' {
        } else {
            assert(collapse_rec(s) == seq![s[0]] + collapse_rec(rest));
        }
    }
}

proof fn lemma_collapse_first(s: Seq<char>)
    requires
        s.len() > 0,
        s[0] != ' ',
    ensures
        collapse_rec(s).len() > 0,
        collapse_rec(s)[0] == s[0],
{
    assert(collapse_rec(s) == seq![s[0]] + collapse_rec(s.drop_first()));
}

proof fn lemma_collapse_no_double(s: Seq<char>)
    ensures
        no_double_space(collapse_rec(s)),
    decreases s.len(),
{
    if s.len() == 0 {
    } else {
        let rest = s.drop_first();
        lemma_collapse_no_double(rest);
        if s[0] == ' ' && s.len() > 1 && s[1] == ' ' {
        } else {
            let t = seq![s[0]] + collapse_rec(rest);
            assert(collapse_rec(s) == t);
            if s[0] == ' ' && rest.len() > 0 {
                lemma_collapse_first(rest);
            }
            assert forall|i: int| 0 <= i < t.len() - 1 implies !(#[trigger] t[i] == ' ' && t[i + 1]
                == ' ') by {
                if i == 0 {
                } else {
                    assert(t[i] == collapse_rec(rest)[i - 1]);
                    assert(t[i + 1] == collapse_rec(rest)[i]);
                }
            }
        }
    }
}

proof fn lemma_collapse_identity(s: Seq<char>)
    requires
        no_double_space(s),
    ensures
        collapse_rec(s) == s,
    decreases s.len(),
{
    if s.len() == 0 {
        assert(collapse_rec(s) =~= s);
    } else {
        let rest = s.drop_first();
        assert(no_double_space(rest));
        lemma_collapse_identity(rest);
        assert(collapse_rec(s) =~= s);
    }
}

proof fn lemma_drop_first_preserves(s: Seq<char>)
    ensures
        all_lower(s) && s.len() > 0 ==> all_lower(s.drop_first()),
        no_brackets(s) && s.len() > 0 ==> no_brackets(s.drop_first()),
        no_double_space(s) && s.len() > 0 ==> no_double_space(s.drop_first()),
{
}

proof fn lemma_drop_last_preserves(s: Seq<char>)
    ensures
        all_lower(s) && s.len() > 0 ==> all_lower(s.drop_last()),
        no_brackets(s) && s.len() > 0 ==> no_brackets(s.drop_last()),
        no_double_space(s) && s.len() > 0 ==> no_double_space(s.drop_last()),
{
}

proof fn lemma_normspace_normal(s: Seq<char>)
    ensures
        space_normal(normspace(s)),
        all_lower(s) ==> all_lower(normspace(s)),
        no_brackets(s) ==> no_brackets(normspace(s)),
{
    let c = collapse_rec(s);
    lemma_collapse_preserves(s);
    lemma_collapse_no_double(s);
    lemma_drop_first_preserves(c);
    let tf = trim_front(c);
    lemma_drop_last_preserves(tf);
    let tb = trim_back(tf);
    if tf.len() > 0 {
        if c[0] == ' ' {
            assert(tf[0] == c[1]);
        }
    }
    if tb.len() > 0 {
        assert(tb[0] == tf[0]);
        if tf[tf.len() - 1] == ' ' {
            assert(tb[tb.len() - 1] == tf[tf.len() - 2]);
        }
    }
}

proof fn lemma_normspace_identity(s: Seq<char>)
    requires
        space_normal(s),
    ensures
        normspace(s) == s,
{
    lemma_collapse_identity(s);
}

/// Cleaning is idempotent: the cleaned form of an already-cleaned title is
/// that title itself.
pub proof fn lemma_clean_idempotent(s: Seq<char>)
    ensures
        clean_spec(clean_spec(s)) == clean_spec(s),
{
    let l = lower_seq(s);
    let b = strip_brackets(l);
    let y = clean_spec(s);
    lemma_lower_seq_all_lower(s);
    lemma_strip_all_lower(l, 0);
    lemma_strip_no_brackets(l, 0);
    lemma_normspace_normal(b);
    lemma_lower_seq_identity(y);
    lemma_strip_identity(y);
    lemma_normspace_identity(y);
}

// ---------------------------------------------------------------------------
// Specification: normalised distance.
// ---------------------------------------------------------------------------

/// Positional distance: one per differing aligned position, one per
/// character of length difference.
pub open spec fn seq_dist(a: Seq<char>, b: Seq<char>) -> nat
    decreases a.len() + b.len(),
{
    if a.len() == 0 {
        b.len()
    } else if b.len() == 0 {
        a.len()
    } else {
        (if a[0] == b[0] {
            0nat
        } else {
            1nat
        }) + seq_dist(a.drop_first(), b.drop_first())
    }
}

pub open spec fn max_len(a: Seq<char>, b: Seq<char>) -> nat {
    if a.len() >= b.len() {
        a.len()
    } else {
        b.len()
    }
}

pub proof fn lemma_dist_bounds(a: Seq<char>, b: Seq<char>)
    ensures
        seq_dist(a, b) <= max_len(a, b),
        a == b ==> seq_dist(a, b) == 0,
    decreases a.len() + b.len(),
{
    if a.len() == 0 || b.len() == 0 {
    } else {
        lemma_dist_bounds(a.drop_first(), b.drop_first());
        if a == b {
            assert(a.drop_first() =~= b.drop_first());
        }
    }
}

/// Similarity on a 0..=1000 scale: 1000 means equal.
pub open spec fn similarity_spec(a: Seq<char>, b: Seq<char>) -> int {
    if max_len(a, b) == 0 {
        1000
    } else {
        ((max_len(a, b) - seq_dist(a, b)) * 1000) / (max_len(a, b) as int)
    }
}

pub proof fn lemma_similarity_range(a: Seq<char>, b: Seq<char>)
    ensures
        0 <= similarity_spec(a, b) <= 1000,
        a == b ==> similarity_spec(a, b) == 1000,
{
    lemma_dist_bounds(a, b);
    let m = max_len(a, b) as int;
    let d = seq_dist(a, b) as int;
    if m > 0 {
        assert(((m - d) * 1000) / m >= 0) by (nonlinear_arith)
            requires
                m > 0,
                0 <= d <= m,
        ;
        assert(((m - d) * 1000) / m <= 1000) by (nonlinear_arith)
            requires
                m > 0,
                0 <= d <= m,
        ;
        if a == b {
            assert((m * 1000) / m == 1000) by (nonlinear_arith)
                requires
                    m > 0,
            ;
        }
    }
}

// ---------------------------------------------------------------------------
// Executable code.
// ---------------------------------------------------------------------------

/// The characters of a string, in order.
pub fn chars_of(s: &str) -> (r: Vec<char>)
    ensures
        r@ == s@,
{
    let n = s.unicode_len();
    let mut r: Vec<char> = Vec::new();
    let mut i: usize = 0;
    while i < n
        invariant
            n == s@.len(),
            i <= n,
            r@ == s@.subrange(0, i as int),
        decreases n - i,
    {
        r.push(s.get_char(i));
        i = i + 1;
        assert(r@ =~= s@.subrange(0, i as int));
    }
    assert(r@ =~= s@);
    r
}

/// Relies on std's String::push: appends exactly the given character.
#[verifier::external_body]
fn push_char(s: &mut String, c: char)
    ensures
        final(s)@ == old(s)@.push(c),
{
    s.push(c);
}

/// A string holding the given characters, in order.
pub fn string_of(v: &Vec<char>) -> (r: String)
    ensures
        r@ == v@,
{
    let mut r = String::new();
    let mut i: usize = 0;
    while i < v.len()
        invariant
            i <= v@.len(),
            r@ == v@.subrange(0, i as int),
        decreases v@.len() - i,
    {
        push_char(&mut r, v[i]);
        i = i + 1;
        assert(r@ =~= v@.subrange(0, i as int));
    }
    assert(r@ =~= v@);
    r
}

/// Lower-cases every character of a sequence.
pub fn lower_chars(v: &Vec<char>) -> (r: Vec<char>)
    ensures
        r@ == lower_seq(v@),
{
    let mut low: Vec<char> = Vec::new();
    let mut i: usize = 0;
    while i < v.len()
        invariant
            i <= v@.len(),
            low@.len() == i,
            forall|j: int| 0 <= j < i ==> low@[j] == lower_char(#[trigger] v@[j]),
        decreases v@.len() - i,
    {
        low.push(lower_char_exec(v[i]));
        i = i + 1;
    }
    assert(low@ =~= lower_seq(v@));
    low
}

fn lower_char_exec(c: char) -> (r: char)
    ensures
        r == lower_char(c),
{
    let u: u32 = c as u32;
    if 65 <= u && u <= 90 {
        ((u + 32) as u8) as char
    } else {
        c
    }
}

fn strip_exec(v: &Vec<char>, i: usize, depth: usize) -> (r: Vec<char>)
    requires
        i <= v@.len(),
        depth <= i,
    ensures
        r@ == strip_rec(v@.subrange(i as int, v@.len() as int), depth as nat),
    decreases v@.len() - i,
{
    let ghost s = v@.subrange(i as int, v@.len() as int);
    if i == v.len() {
        let r: Vec<char> = Vec::new();
        assert(r@ =~= strip_rec(s, depth as nat));
        r
    } else {
        let c = v[i];
        proof {
            assert(s[0] == c);
            assert(s.drop_first() =~= v@.subrange(i + 1, v@.len() as int));
        }
        let u: u32 = c as u32;
        if c == '(' || c == '[' {
            strip_exec(v, i + 1, depth + 1)
        } else if c == ')' || c == ']' {
            let nd: usize = if depth > 0 {
                depth - 1
            } else {
                0
            };
            strip_exec(v, i + 1, nd)
        } else if depth > 0 {
            strip_exec(v, i + 1, depth)
        } else {
            let mut r = strip_exec(v, i + 1, 0);
            r.insert(0, c);
            assert(r@ =~= seq![c] + strip_rec(s.drop_first(), 0));
            r
        }
    }
}

fn collapse_exec(v: &Vec<char>, i: usize) -> (r: Vec<char>)
    requires
        i <= v@.len(),
    ensures
        r@ == collapse_rec(v@.subrange(i as int, v@.len() as int)),
    decreases v@.len() - i,
{
    let ghost s = v@.subrange(i as int, v@.len() as int);
    if i == v.len() {
        let r: Vec<char> = Vec::new();
        assert(r@ =~= collapse_rec(s));
        r
    } else {
        proof {
            assert(s[0] == v@[i as int]);
            assert(s.drop_first() =~= v@.subrange(i + 1, v@.len() as int));
            if s.len() > 1 {
                assert(s[1] == v@[i + 1]);
            }
        }
        if v[i] == ' ' && i + 1 < v.len() && v[i + 1] == ' ' {
            collapse_exec(v, i + 1)
        } else {
            let c = v[i];
            let mut r = collapse_exec(v, i + 1);
            r.insert(0, c);
            assert(r@ =~= seq![s[0]] + collapse_rec(s.drop_first()));
            r
        }
    }
}

fn trim_exec(v: Vec<char>) -> (r: Vec<char>)
    ensures
        r@ == trim_back(trim_front(v@)),
{
    let mut v = v;
    let ghost orig = v@;
    if v.len() > 0 && v[0] == ' ' {
        v.remove(0);
        assert(v@ =~= orig.drop_first());
    }
    assert(v@ == trim_front(orig));
    let ghost tf = v@;
    if v.len() > 0 && v[v.len() - 1] == ' ' {
        v.pop();
        assert(v@ =~= tf.drop_last());
    }
    assert(v@ == trim_back(tf));
    v
}

/// The cleaned form of a character sequence, as `clean_spec` states it.
pub fn clean_chars(v: &Vec<char>) -> (r: Vec<char>)
    ensures
        r@ == clean_spec(v@),
{
    let low = lower_chars(v);
    let stripped = strip_exec(&low, 0, 0);
    assert(low@.subrange(0, low@.len() as int) =~= low@);
    let collapsed = collapse_exec(&stripped, 0);
    assert(stripped@.subrange(0, stripped@.len() as int) =~= stripped@);
    trim_exec(collapsed)
}

/// Cleans a title: lower-case, bracketed qualifiers removed, whitespace
/// normalised.
pub fn clean_str(s: &str) -> (r: String)
    ensures
        r@ == clean_spec(s@),
{
    let v = chars_of(s);
    let cleaned = clean_chars(&v);
    string_of(&cleaned)
}

fn dist_exec(a: &Vec<char>, b: &Vec<char>, i: usize) -> (r: usize)
    requires
        i <= a@.len(),
        i <= b@.len(),
    ensures
        r == seq_dist(a@.skip(i as int), b@.skip(i as int)),
    decreases a@.len() + b@.len() - i,
{
    let ghost sa = a@.skip(i as int);
    let ghost sb = b@.skip(i as int);
    if i >= a.len() && i >= b.len() {
        assert(sa.len() == 0 && sb.len() == 0);
        0
    } else if i >= a.len() {
        assert(sa.len() == 0);
        b.len() - i
    } else if i >= b.len() {
        assert(sb.len() == 0);
        a.len() - i
    } else {
        proof {
            assert(sa[0] == a@[i as int] && sb[0] == b@[i as int]);
            assert(sa.drop_first() =~= a@.skip(i + 1));
            assert(sb.drop_first() =~= b@.skip(i + 1));
            lemma_dist_bounds(sa.drop_first(), sb.drop_first());
        }
        let d = dist_exec(a, b, i + 1);
        if a[i] == b[i] {
            d
        } else {
            d + 1
        }
    }
}

/// Similarity of two character sequences on a 0..=1000 scale.
pub fn similarity(a: &Vec<char>, b: &Vec<char>) -> (r: u32)
    ensures
        r == similarity_spec(a@, b@),
        0 <= r <= 1000,
{
    proof {
        lemma_similarity_range(a@, b@);
    }
    let la = a.len();
    let lb = b.len();
    let m: usize = if la >= lb {
        la
    } else {
        lb
    };
    if m == 0 {
        assert(a@ =~= Seq::<char>::empty());
        assert(b@ =~= Seq::<char>::empty());
        1000
    } else {
        assert(a@.skip(0) =~= a@);
        assert(b@.skip(0) =~= b@);
        let d = dist_exec(a, b, 0);
        proof {
            lemma_dist_bounds(a@, b@);
        }
        let num: u128 = ((m - d) as u128) * 1000;
        let q: u128 = num / (m as u128);
        assert(q == similarity_spec(a@, b@));
        q as u32
    }
}

} // verus!
