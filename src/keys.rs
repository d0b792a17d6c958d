use vstd::prelude::*;
use vstd::utf8::is_ascii_chars;

use crate::keycode::{
    char_for, key_for, key_of, key_to_string, lemma_key_round_trip, LogicalKey, Platform,
};
use crate::Failure;

verus! {

/// The upper-case form of a text under Unicode's full case mapping.
pub uninterp spec fn upper_of(s: Seq<char>) -> Seq<char>;

/// Upper-case form of an ASCII character; other characters are kept.
pub open spec fn ascii_upper(c: char) -> char {
    if c == 'a' {
        'A'
    } else if c == 'b' {
        'B'
    } else if c == 'c' {
        'C'
    } else if c == 'd' {
        'D'
    } else if c == 'e' {
        'E'
    } else if c == 'f' {
        'F'
    } else if c == 'g' {
        'G'
    } else if c == 'h' {
        'H'
    } else if c == 'i' {
        'I'
    } else if c == 'j' {
        'J'
    } else if c == 'k' {
        'K'
    } else if c == 'l' {
        'L'
    } else if c == 'm' {
        'M'
    } else if c == 'n' {
        'N'
    } else if c == 'o' {
        'O'
    } else if c == 'p' {
        'P'
    } else if c == 'q' {
        'Q'
    } else if c == 'r' {
        'R'
    } else if c == 's' {
        'S'
    } else if c == 't' {
        'T'
    } else if c == 'u' {
        'U'
    } else if c == 'v' {
        'V'
    } else if c == 'w' {
        'W'
    } else if c == 'x' {
        'X'
    } else if c == 'y' {
        'Y'
    } else if c == 'z' {
        'Z'
    } else {
        c
    }
}

/// The upper-case form of a text: the ASCII mapping for ASCII text, the full
/// Unicode mapping otherwise.
pub open spec fn upper_text(s: Seq<char>) -> Seq<char> {
    if is_ascii_chars(s) {
        s.map_values(|c: char| ascii_upper(c))
    } else {
        upper_of(s)
    }
}

/// Relies on `str::to_uppercase`: its result depends on the text alone.
#[verifier::external_body]
fn unicode_uppercase(s: &str) -> (r: String)
    ensures
        r@ == upper_of(s@),
{
    s.to_uppercase()
}

/// Relies on `str::to_ascii_uppercase`: `a`..`z` become `A`..`Z`, every other
/// character is kept.
#[verifier::external_body]
fn ascii_uppercase(s: &str) -> (r: String)
    ensures
        r@ == s@.map_values(|c: char| ascii_upper(c)),
{
    s.to_ascii_uppercase()
}

/// Upper-cases a text; for ASCII text this is the ASCII mapping, which is what
/// the full mapping gives there too.
pub fn uppercase(s: &str) -> (r: String)
    ensures
        r@ == upper_text(s@),
{
    if s.is_ascii() {
        ascii_uppercase(s)
    } else {
        unicode_uppercase(s)
    }
}

/// The pieces of `s` between `+` signs, in order; there is always at least one.
pub open spec fn split_plus(s: Seq<char>) -> Seq<Seq<char>>
    decreases s.len(),
{
    if s.len() == 0 {
        seq![Seq::<char>::empty()]
    } else {
        let r = split_plus(s.drop_last());
        if s.last() == '+' {
            r.push(Seq::<char>::empty())
        } else {
            r.update(r.len() - 1, r.last().push(s.last()))
        }
    }
}

/// The pieces joined back with `+` between them.
pub open spec fn join_plus(ts: Seq<Seq<char>>) -> Seq<char>
    decreases ts.len(),
{
    if ts.len() == 0 {
        Seq::<char>::empty()
    } else if ts.len() == 1 {
        ts[0]
    } else {
        join_plus(ts.drop_last()) + seq!['+'] + ts.last()
    }
}

/// The key that one upper-case token of a combination names.
pub open spec fn token_key(p: Platform, t: Seq<char>) -> Option<LogicalKey> {
    if t == "CTRL"@ || t == "CONTROL"@ {
        Some(LogicalKey::Control)
    } else if t == "SHIFT"@ {
        Some(LogicalKey::Shift)
    } else if t == "ALT"@ {
        Some(LogicalKey::Alt)
    } else if t == "COMMAND"@ || t == "META"@ || t == "SUPER"@ {
        Some(LogicalKey::Meta)
    } else if t.len() == 1 {
        key_for(p, t[0])
    } else {
        None
    }
}

/// The keys that the tokens name, or the first token that names none.
pub open spec fn parse_tokens(p: Platform, ts: Seq<Seq<char>>) -> Result<Seq<LogicalKey>, Seq<char>>
    decreases ts.len(),
{
    if ts.len() == 0 {
        Ok(Seq::<LogicalKey>::empty())
    } else {
        match parse_tokens(p, ts.drop_last()) {
            Err(t) => Err(t),
            Ok(ks) => match token_key(p, ts.last()) {
                Some(k) => Ok(ks.push(k)),
                None => Err(ts.last()),
            },
        }
    }
}

/// A combination such as `ctrl+shift+a`, read on platform `p`: the keys it
/// names, or the first upper-cased token that names no key.
pub open spec fn parse_combination(p: Platform, s: Seq<char>) -> Result<Seq<LogicalKey>, Seq<char>> {
    parse_tokens(p, split_plus(upper_text(s)))
}

/// How one key is written in a combination.
pub open spec fn key_name(p: Platform, k: LogicalKey) -> Seq<char> {
    match k {
        LogicalKey::Control => "CTRL"@,
        LogicalKey::Shift => "SHIFT"@,
        LogicalKey::Alt => "ALT"@,
        LogicalKey::Meta => "META"@,
        _ => match char_for(p, k) {
            Some(c) => upper_text(seq![c]),
            None => "not set"@,
        },
    }
}

/// A key list written as a combination.
pub open spec fn format_combination(p: Platform, ks: Seq<LogicalKey>) -> Seq<char> {
    join_plus(ks.map_values(|k: LogicalKey| key_name(p, k)))
}

proof fn lemma_split_nonempty(s: Seq<char>)
    ensures
        split_plus(s).len() >= 1,
    decreases s.len(),
{
    if s.len() > 0 {
        lemma_split_nonempty(s.drop_last());
    }
}

/// Once a prefix of the tokens fails, every extension fails on the same token.
proof fn lemma_parse_error_extends(p: Platform, ts: Seq<Seq<char>>, n: int)
    requires
        0 <= n <= ts.len(),
        parse_tokens(p, ts.subrange(0, n)) is Err,
    ensures
        parse_tokens(p, ts) == parse_tokens(p, ts.subrange(0, n)),
    decreases ts.len() - n,
{
    if n < ts.len() {
        assert(ts.subrange(0, n + 1).drop_last() =~= ts.subrange(0, n));
        lemma_parse_error_extends(p, ts, n + 1);
    } else {
        assert(ts.subrange(0, n) =~= ts);
    }
}

/// An ASCII character other than `+` that upper-casing keeps.
pub open spec fn plain_char(c: char) -> bool {
    c != '+' && '\0' <= c <= '\u{7f}' && ascii_upper(c) == c
}

pub open spec fn plain_text(t: Seq<char>) -> bool {
    forall|j: int| 0 <= j < t.len() ==> plain_char(#[trigger] t[j])
}

proof fn lemma_split_plain(u: Seq<char>)
    requires
        forall|k: int| 0 <= k < u.len() ==> plain_char(#[trigger] u[k]) || u[k] == '+',
    ensures
        forall|i: int| 0 <= i < split_plus(u).len() ==> plain_text(#[trigger] split_plus(u)[i]),
    decreases u.len(),
{
    if u.len() > 0 {
        let d = u.drop_last();
        assert forall|k: int| 0 <= k < d.len() implies plain_char(#[trigger] d[k]) || d[k] == '+' by {
            assert(d[k] == u[k]);
        }
        lemma_split_plain(d);
        lemma_split_nonempty(d);
        let r = split_plus(d);
        if u.last() != '+' {
            assert(plain_char(u[u.len() - 1]));
            let t = r.last().push(u.last());
            assert(plain_text(r[r.len() - 1]));
            assert forall|j: int| 0 <= j < t.len() implies plain_char(#[trigger] t[j]) by {
                if j < t.len() - 1 {
                    assert(t[j] == r[r.len() - 1][j]);
                }
            }
        }
    }
}

proof fn lemma_split_append(x: Seq<char>, b: Seq<char>)
    requires
        plain_text(b),
    ensures
        split_plus(x + b) == split_plus(x).update(
            split_plus(x).len() - 1,
            split_plus(x).last() + b,
        ),
    decreases b.len(),
{
    lemma_split_nonempty(x);
    let r = split_plus(x);
    if b.len() == 0 {
        assert(x + b =~= x);
        assert(r.update(r.len() - 1, r.last() + b) =~= r);
    } else {
        let bd = b.drop_last();
        lemma_split_append(x, bd);
        assert((x + b).drop_last() =~= x + bd);
        assert(plain_char(b[b.len() - 1]));
        assert((x + b).last() == b.last());
        let r2 = r.update(r.len() - 1, r.last() + bd);
        assert(r2.last().push(b.last()) =~= r.last() + b);
        assert(r2.update(r2.len() - 1, r2.last().push(b.last())) =~= r.update(
            r.len() - 1,
            r.last() + b,
        ));
    }
}

proof fn lemma_split_join(ns: Seq<Seq<char>>)
    requires
        ns.len() >= 1,
        forall|i: int| 0 <= i < ns.len() ==> plain_text(#[trigger] ns[i]),
    ensures
        split_plus(join_plus(ns)) == ns,
    decreases ns.len(),
{
    let e = Seq::<char>::empty();
    if ns.len() == 1 {
        assert(plain_text(ns[0]));
        lemma_split_append(e, ns[0]);
        assert(e + ns[0] =~= ns[0]);
        assert(split_plus(e) == seq![e]);
        assert(seq![e].update(0, e + ns[0]) =~= ns);
    } else {
        let d = ns.drop_last();
        assert forall|i: int| 0 <= i < d.len() implies plain_text(#[trigger] d[i]) by {
            assert(d[i] == ns[i]);
        }
        lemma_split_join(d);
        let a = join_plus(d) + seq!['+'];
        assert(a.drop_last() =~= join_plus(d));
        assert(split_plus(a) == d.push(e));
        assert(plain_text(ns[ns.len() - 1]));
        lemma_split_append(a, ns.last());
        assert(d.push(e).update(d.len() as int, e + ns.last()) =~= ns);
    }
}

proof fn lemma_join_plain(ns: Seq<Seq<char>>)
    requires
        forall|i: int| 0 <= i < ns.len() ==> plain_text(#[trigger] ns[i]),
    ensures
        forall|j: int| 0 <= j < join_plus(ns).len() ==> #[trigger] join_plus(ns)[j] == '+' || plain_char(
            join_plus(ns)[j],
        ),
    decreases ns.len(),
{
    if ns.len() > 1 {
        let d = ns.drop_last();
        assert forall|i: int| 0 <= i < d.len() implies plain_text(#[trigger] d[i]) by {
            assert(d[i] == ns[i]);
        }
        lemma_join_plain(d);
        assert(plain_text(ns[ns.len() - 1]));
        let jd = join_plus(d);
        let j = join_plus(ns);
        assert forall|k: int| 0 <= k < j.len() implies #[trigger] j[k] == '+' || plain_char(j[k]) by {
            if k < jd.len() {
                assert(j[k] == jd[k]);
            } else if k > jd.len() {
                assert(j[k] == ns.last()[k - jd.len() - 1]);
            }
        }
    } else if ns.len() == 1 {
        assert(plain_text(ns[0]));
    }
}

proof fn lemma_parse_ok_elements(p: Platform, ts: Seq<Seq<char>>)
    requires
        parse_tokens(p, ts) is Ok,
    ensures
        parse_tokens(p, ts)->Ok_0.len() == ts.len(),
        forall|i: int|
            0 <= i < ts.len() ==> token_key(p, #[trigger] ts[i]) == Some(
                parse_tokens(p, ts)->Ok_0[i],
            ),
    decreases ts.len(),
{
    if ts.len() > 0 {
        let d = ts.drop_last();
        lemma_parse_ok_elements(p, d);
        let ks = parse_tokens(p, ts)->Ok_0;
        assert forall|i: int| 0 <= i < ts.len() implies token_key(p, #[trigger] ts[i]) == Some(ks[i]) by {
            if i < d.len() {
                assert(ts[i] == d[i]);
            }
        }
    }
}

proof fn lemma_parse_all(p: Platform, ts: Seq<Seq<char>>, ks: Seq<LogicalKey>)
    requires
        ts.len() == ks.len(),
        forall|i: int| 0 <= i < ts.len() ==> token_key(p, #[trigger] ts[i]) == Some(ks[i]),
    ensures
        parse_tokens(p, ts) == Ok::<Seq<LogicalKey>, Seq<char>>(ks),
    decreases ts.len(),
{
    if ts.len() > 0 {
        let d = ts.drop_last();
        let kd = ks.drop_last();
        assert forall|i: int| 0 <= i < d.len() implies token_key(p, #[trigger] d[i]) == Some(kd[i]) by {
            assert(d[i] == ts[i]);
        }
        lemma_parse_all(p, d, kd);
        assert(token_key(p, ts[ts.len() - 1]) == Some(ks[ks.len() - 1]));
        assert(kd.push(ks.last()) =~= ks);
    } else {
        assert(ks =~= Seq::<LogicalKey>::empty());
    }
}

/// The name of a key read from a plain token names that key again, and is
/// itself plain.
proof fn lemma_name_reads_back(p: Platform, t: Seq<char>)
    requires
        plain_text(t),
        token_key(p, t) is Some,
    ensures
        plain_text(key_name(p, token_key(p, t)->0)),
        key_name(p, token_key(p, t)->0).len() > 0,
        token_key(p, key_name(p, token_key(p, t)->0)) == token_key(p, t),
{
    reveal_strlit("CTRL");
    reveal_strlit("CONTROL");
    reveal_strlit("SHIFT");
    reveal_strlit("ALT");
    reveal_strlit("COMMAND");
    reveal_strlit("META");
    reveal_strlit("SUPER");
    let k = token_key(p, t)->0;
    let n = key_name(p, k);
    match k {
        LogicalKey::Control | LogicalKey::Shift | LogicalKey::Alt | LogicalKey::Meta => {},
        _ => {
            assert(t.len() == 1);
            let c = t[0];
            assert(plain_char(c));
            lemma_key_round_trip(p, c);
            assert(char_for(p, k) == Some(c));
            assert(is_ascii_chars(seq![c]));
            assert(n =~= seq![c]);
        },
    }
}

/// Reading a combination, writing it back and reading that again gives the
/// same keys, for every combination of ASCII text that reads.
pub proof fn lemma_format_parse(p: Platform, s: Seq<char>)
    requires
        is_ascii_chars(s),
        parse_combination(p, s) is Ok,
    ensures
        parse_combination(p, format_combination(p, parse_combination(p, s)->Ok_0)) == parse_combination(
            p,
            s,
        ),
{
    let u = upper_text(s);
    assert(u == s.map_values(|c: char| ascii_upper(c)));
    assert forall|k: int| 0 <= k < u.len() implies plain_char(#[trigger] u[k]) || u[k] == '+' by {
        assert(u[k] == ascii_upper(s[k]));
        assert('\0' <= s[k] <= '\u{7f}');
    }
    let ts = split_plus(u);
    lemma_split_plain(u);
    lemma_split_nonempty(u);
    lemma_parse_ok_elements(p, ts);
    let ks = parse_tokens(p, ts)->Ok_0;
    let names = ks.map_values(|k: LogicalKey| key_name(p, k));
    assert forall|i: int| 0 <= i < names.len() implies plain_text(#[trigger] names[i]) && token_key(
        p,
        names[i],
    ) == Some(ks[i]) by {
        assert(plain_text(ts[i]));
        assert(token_key(p, ts[i]) == Some(ks[i]));
        lemma_name_reads_back(p, ts[i]);
    }
    let f = join_plus(names);
    assert(f == format_combination(p, ks));
    lemma_join_plain(names);
    assert(is_ascii_chars(f)) by {
        assert forall|j: int| 0 <= j < f.len() implies '\0' <= #[trigger] f[j] <= '\u{7f}' by {
            assert(f[j] == '+' || plain_char(f[j]));
        }
    }
    assert(upper_text(f) =~= f) by {
        let g = f.map_values(|c: char| ascii_upper(c));
        assert forall|j: int| 0 <= j < f.len() implies #[trigger] g[j] == f[j] by {
            assert(f[j] == '+' || plain_char(f[j]));
        }
    }
    lemma_split_join(names);
    lemma_parse_all(p, names, ks);
}

/// True when `a` and `b` hold the same characters.
fn same_text(a: &str, b: &str) -> (r: bool)
    ensures
        r == (a@ == b@),
{
    let n = a.unicode_len();
    if n != b.unicode_len() {
        return false;
    }
    let mut i: usize = 0;
    while i < n
        invariant
            n == a@.len(),
            n == b@.len(),
            i <= n,
            a@.subrange(0, i as int) == b@.subrange(0, i as int),
        decreases n - i,
    {
        if a.get_char(i) != b.get_char(i) {
            return false;
        }
        assert(a@.subrange(0, i + 1) =~= a@.subrange(0, i as int).push(a@[i as int]));
        assert(b@.subrange(0, i + 1) =~= b@.subrange(0, i as int).push(b@[i as int]));
        i = i + 1;
    }
    assert(a@ =~= a@.subrange(0, n as int));
    assert(b@ =~= b@.subrange(0, n as int));
    true
}

/// The key that one upper-case token names; a token that names none is
/// `UnsupportedKey` holding that token.
fn parse_token(p: Platform, t: &str) -> (r: Result<LogicalKey, Failure>)
    ensures
        match r {
            Ok(k) => token_key(p, t@) == Some(k),
            Err(e) => token_key(p, t@) is None && e is UnsupportedKey && e->UnsupportedKey_0@ == t@,
        },
{
    if same_text(t, "CTRL") || same_text(t, "CONTROL") {
        Ok(LogicalKey::Control)
    } else if same_text(t, "SHIFT") {
        Ok(LogicalKey::Shift)
    } else if same_text(t, "ALT") {
        Ok(LogicalKey::Alt)
    } else if same_text(t, "COMMAND") || same_text(t, "META") || same_text(t, "SUPER") {
        Ok(LogicalKey::Meta)
    } else if t.unicode_len() == 1 {
        let c = t.get_char(0);
        match key_of(p, c) {
            Ok(k) => Ok(k),
            Err(e) => {
                assert(t@ =~= seq![c]);
                Err(e)
            },
        }
    } else {
        Err(Failure::UnsupportedKey(t.to_owned()))
    }
}

/// The pieces of `s` between `+` signs.
fn split_tokens(s: &str) -> (r: Vec<String>)
    ensures
        r@.map_values(|t: String| t@) == split_plus(s@),
{
    let n = s.unicode_len();
    let mut out: Vec<String> = Vec::new();
    let mut start: usize = 0;
    let mut i: usize = 0;
    assert(s@.subrange(0, 0) =~= Seq::<char>::empty());
    assert(out@.map_values(|t: String| t@).push(s@.subrange(0, 0)) =~= seq![Seq::<char>::empty()]);
    while i < n
        invariant
            n == s@.len(),
            start <= i <= n,
            split_plus(s@.subrange(0, i as int)) == out@.map_values(|t: String| t@).push(
                s@.subrange(start as int, i as int),
            ),
        decreases n - i,
    {
        let ghost prev = s@.subrange(0, i as int);
        let ghost next = s@.subrange(0, i + 1);
        assert(next.drop_last() =~= prev);
        if s.get_char(i) == '+' {
            let t = s.substring_char(start, i).to_owned();
            out.push(t);
            start = i + 1;
            assert(s@.subrange(start as int, i + 1) =~= Seq::<char>::empty());
        } else {
            proof {
                lemma_split_nonempty(prev);
            }
            assert(s@.subrange(start as int, i + 1) =~= s@.subrange(start as int, i as int).push(s@[i as int]));
        }
        i = i + 1;
        assert(split_plus(next) =~= out@.map_values(|t: String| t@).push(s@.subrange(start as int, i as int)));
    }
    let t = s.substring_char(start, n).to_owned();
    out.push(t);
    assert(s@.subrange(0, n as int) =~= s@);
    assert(out@.map_values(|t: String| t@) =~= split_plus(s@));
    out
}

/// A combination of keys, in the order in which they are written.
#[derive(Clone, Debug)]
pub struct Keys(pub Vec<LogicalKey>);

impl Keys {
    /// Reads a combination such as `ctrl+shift+a`: split on `+`, upper-cased,
    /// each token a modifier name or a single character of the platform's
    /// table; the first token that is neither is `UnsupportedKey`.
    pub fn from_str(p: Platform, s: &str) -> (r: Result<Keys, Failure>)
        ensures
            match r {
                Ok(keys) => parse_combination(p, s@) == Ok::<Seq<LogicalKey>, Seq<char>>(keys.0@),
                Err(e) => e is UnsupportedKey && parse_combination(p, s@)
                    == Err::<Seq<LogicalKey>, Seq<char>>(e->UnsupportedKey_0@),
            },
    {
        let upper = uppercase(s);
        let tokens = split_tokens(upper.as_str());
        let ghost ts = tokens@.map_values(|t: String| t@);
        let mut keys: Vec<LogicalKey> = Vec::new();
        let mut j: usize = 0;
        while j < tokens.len()
            invariant
                ts == tokens@.map_values(|t: String| t@),
                ts == split_plus(upper_text(s@)),
                j <= tokens.len(),
                parse_tokens(p, ts.subrange(0, j as int)) == Ok::<Seq<LogicalKey>, Seq<char>>(keys@),
            decreases tokens.len() - j,
        {
            assert(ts.subrange(0, j + 1).drop_last() =~= ts.subrange(0, j as int));
            match parse_token(p, tokens[j].as_str()) {
                Ok(k) => keys.push(k),
                Err(e) => {
                    proof {
                        lemma_parse_error_extends(p, ts, j + 1);
                    }
                    return Err(e);
                },
            }
            j = j + 1;
        }
        assert(ts.subrange(0, j as int) =~= ts);
        Ok(Keys(keys))
    }

    /// Writes the combination back: modifiers as `CTRL`, `SHIFT`, `ALT` and
    /// `META`, other keys as their upper-cased character, or `not set` for a
    /// key without one, joined with `+`.
    pub fn to_string(&self, p: Platform) -> (r: String)
        ensures
            r@ == format_combination(p, self.0@),
    {
        let ghost names = self.0@.map_values(|k: LogicalKey| key_name(p, k));
        let mut out = String::new();
        let mut i: usize = 0;
        while i < self.0.len()
            invariant
                names == self.0@.map_values(|k: LogicalKey| key_name(p, k)),
                i <= self.0.len(),
                out@ == join_plus(names.subrange(0, i as int)),
            decreases self.0.len() - i,
        {
            let name = match self.0[i] {
                LogicalKey::Control => String::from_str("CTRL"),
                LogicalKey::Shift => String::from_str("SHIFT"),
                LogicalKey::Alt => String::from_str("ALT"),
                LogicalKey::Meta => String::from_str("META"),
                _ => match key_to_string(p, &self.0[i]) {
                    Ok(c) => uppercase(c.as_str()),
                    Err(_) => String::from_str("not set"),
                },
            };
            assert(name@ == names[i as int]);
            if i > 0 {
                out.append("+");
                proof {
                    reveal_strlit("+");
                }
            }
            out.append(name.as_str());
            assert(names.subrange(0, i + 1).drop_last() =~= names.subrange(0, i as int));
            assert(out@ =~= join_plus(names.subrange(0, i + 1)));
            i = i + 1;
        }
        assert(names.subrange(0, i as int) =~= names);
        out
    }
}

} // verus!
