use vstd::prelude::*;

verus! {

/// Error raised while turning a signature into an address; it carries a human-readable message.
#[derive(Debug)]
pub struct SignatureError(pub(crate) String);

impl View for SignatureError {
    type V = Seq<char>;

    closed spec fn view(&self) -> Seq<char> {
        self.0@
    }
}

impl SignatureError {
    /// Builds an error that carries the given message.
    pub fn new(message: String) -> (res: SignatureError)
        ensures
            res@ == message@,
    {
        SignatureError(message)
    }

    /// The message that this error reports.
    pub fn message(&self) -> (res: String)
        ensures
            res@ == self@,
    {
        self.0.clone()
    }
}

/// Unicode `White_Space`, as `char::is_whitespace` decides it.
pub open spec fn is_whitespace(c: char) -> bool {
    let u = c as u32;
    ||| 0x09 <= u <= 0x0d
    ||| u == 0x20
    ||| u == 0x85
    ||| u == 0xa0
    ||| u == 0x1680
    ||| 0x2000 <= u <= 0x200a
    ||| u == 0x2028
    ||| u == 0x2029
    ||| u == 0x202f
    ||| u == 0x205f
    ||| u == 0x3000
}

/// Number of bytes in the UTF-8 encoding of `c`.
pub open spec fn char_utf8_len(c: char) -> nat {
    let u = c as u32;
    if u < 0x80 {
        1
    } else if u < 0x800 {
        2
    } else if u < 0x10000 {
        3
    } else {
        4
    }
}

/// Number of bytes in the UTF-8 encoding of `s`.
pub open spec fn utf8_len(s: Seq<char>) -> nat
    decreases s.len(),
{
    if s.len() == 0 {
        0
    } else {
        utf8_len(s.drop_last()) + char_utf8_len(s.last())
    }
}

/// The finished tokens and the token in progress after reading the first `n` characters of `s`,
/// splitting on whitespace runs.
pub open spec fn split_state(s: Seq<char>, n: nat) -> (Seq<Seq<char>>, Seq<char>)
    decreases n,
{
    if n == 0 {
        (seq![], seq![])
    } else {
        let (done, cur) = split_state(s, (n - 1) as nat);
        let c = s[n - 1];
        if is_whitespace(c) {
            if cur.len() > 0 {
                (done.push(cur), seq![])
            } else {
                (done, seq![])
            }
        } else {
            (done, cur.push(c))
        }
    }
}

/// The non-empty whitespace-separated tokens of `s`, in order (as `str::split_whitespace`).
pub open spec fn split_whitespace(s: Seq<char>) -> Seq<Seq<char>> {
    let (done, cur) = split_state(s, s.len());
    if cur.len() > 0 {
        done.push(cur)
    } else {
        done
    }
}

/// Value of a hexadecimal digit.
pub open spec fn hex_digit(c: char) -> Option<u8> {
    if '0' <= c <= '9' {
        Some((c as u32 - '0' as u32) as u8)
    } else if 'a' <= c <= 'f' {
        Some((c as u32 - 'a' as u32 + 10) as u8)
    } else if 'A' <= c <= 'F' {
        Some((c as u32 - 'A' as u32 + 10) as u8)
    } else {
        None
    }
}

/// A token of at most two bytes read as a hexadecimal `u8`, the way `u8::from_str_radix(t, 16)`
/// reads it: an optional leading `+` followed by at least one hex digit.
pub open spec fn hex_u8(t: Seq<char>) -> Option<u8> {
    if t.len() == 1 {
        hex_digit(t[0])
    } else if t.len() == 2 {
        if t[0] == '+' {
            hex_digit(t[1])
        } else {
            match (hex_digit(t[0]), hex_digit(t[1])) {
                (Some(hi), Some(lo)) => Some((hi * 16 + lo) as u8),
                _ => None,
            }
        }
    } else {
        None
    }
}

/// The pattern entry for one signature token: a wildcard for tokens that begin with `?` or
/// are longer than two bytes, the byte for a hex token, and `None` when the token is malformed.
pub open spec fn token_entry(t: Seq<char>) -> Option<Option<u8>> {
    if t[0] == '?' || utf8_len(t) > 2 {
        Some(None)
    } else {
        match hex_u8(t) {
            Some(b) => Some(Some(b)),
            None => None,
        }
    }
}

/// The entry a token yields when malformed tokens are turned into wildcards.
pub open spec fn lenient_entry(t: Seq<char>) -> Option<u8> {
    match token_entry(t) {
        Some(e) => e,
        None => None,
    }
}

/// The message of the error raised for a malformed token in strict mode.
pub open spec fn parse_failure_message(sig: Seq<char>, token: Seq<char>) -> Seq<char> {
    "Failed to parse byte \""@ + sig + "\" in signature "@ + token
        + ". CRASHING, SINCE WE'RE IN DEBUG MODE!"@
}

/// Index of the first malformed token, if any.
pub open spec fn first_malformed(toks: Seq<Seq<char>>, k: int) -> bool {
    &&& 0 <= k < toks.len()
    &&& token_entry(toks[k]) is None
    &&& forall|j: int| 0 <= j < k ==> token_entry(#[trigger] toks[j]) is Some
}

fn is_whitespace_exec(c: char) -> (res: bool)
    ensures
        res == is_whitespace(c),
{
    let u = c as u32;
    (0x09 <= u && u <= 0x0d) || u == 0x20 || u == 0x85 || u == 0xa0 || u == 0x1680 || (0x2000
        <= u && u <= 0x200a) || u == 0x2028 || u == 0x2029 || u == 0x202f || u == 0x205f || u
        == 0x3000
}

fn hex_digit_exec(c: char) -> (res: Option<u8>)
    ensures
        res == hex_digit(c),
{
    if '0' <= c && c <= '9' {
        Some((c as u32 - '0' as u32) as u8)
    } else if 'a' <= c && c <= 'f' {
        Some((c as u32 - 'a' as u32 + 10) as u8)
    } else if 'A' <= c && c <= 'F' {
        Some((c as u32 - 'A' as u32 + 10) as u8)
    } else {
        None
    }
}

fn char_utf8_len_exec(c: char) -> (res: usize)
    ensures
        res == char_utf8_len(c),
{
    let u = c as u32;
    if u < 0x80 {
        1
    } else if u < 0x800 {
        2
    } else if u < 0x10000 {
        3
    } else {
        4
    }
}

proof fn lemma_utf8_len_step(s: Seq<char>, i: int)
    requires
        0 <= i < s.len(),
    ensures
        utf8_len(s.subrange(0, i + 1)) == utf8_len(s.subrange(0, i)) + char_utf8_len(s[i]),
{
    assert(s.subrange(0, i + 1).drop_last() =~= s.subrange(0, i));
}

/// Reads the signature token `sig[start..end]` (in characters).
fn token_entry_exec(sig: &str, start: usize, end: usize) -> (res: Option<Option<u8>>)
    requires
        start < end <= sig@.len(),
    ensures
        res == token_entry(sig@.subrange(start as int, end as int)),
{
    let ghost t = sig@.subrange(start as int, end as int);
    let first = sig.get_char(start);
    if first == '?' {
        return Some(None);
    }
    // byte length of the token, stopping once it exceeds two
    let mut bytes: usize = 0;
    let mut i: usize = start;
    while i < end
        invariant
            start <= i <= end <= sig@.len(),
            t == sig@.subrange(start as int, end as int),
            bytes == utf8_len(t.subrange(0, i - start)),
            bytes <= 2,
        decreases end - i,
    {
        let c = sig.get_char(i);
        proof {
            lemma_utf8_len_step(t, i - start);
            assert(t[i - start] == c);
        }
        bytes = bytes + char_utf8_len_exec(c);
        i = i + 1;
        if bytes > 2 {
            proof {
                lemma_utf8_len_prefix_monotone(t, i - start);
            }
            return Some(None);
        }
    }
    assert(t.subrange(0, end - start) =~= t);
    let len = end - start;
    let hex = if len == 1 {
        hex_digit_exec(first)
    } else if len == 2 {
        let second = sig.get_char(start + 1);
        if first == '+' {
            hex_digit_exec(second)
        } else {
            match (hex_digit_exec(first), hex_digit_exec(second)) {
                (Some(hi), Some(lo)) => Some(hi * 16 + lo),
                _ => None,
            }
        }
    } else {
        None
    };
    match hex {
        Some(b) => Some(Some(b)),
        None => None,
    }
}

proof fn lemma_utf8_len_prefix_monotone(t: Seq<char>, n: int)
    requires
        0 <= n <= t.len(),
    ensures
        utf8_len(t.subrange(0, n)) <= utf8_len(t),
    decreases t.len() - n,
{
    if n < t.len() {
        lemma_utf8_len_step(t, n);
        lemma_utf8_len_prefix_monotone(t, n + 1);
    } else {
        assert(t.subrange(0, n) =~= t);
    }
}


/// Reports a malformed signature byte. In strict mode this is an error that names the
/// signature and the byte; otherwise the byte becomes a wildcard in `transformed`.
pub fn handle_hex_parse_error(
    transformed: &mut Vec<Option<u8>>,
    sig: &str,
    byte: &str,
    strict: bool,
) -> (res: Result<(), SignatureError>)
    ensures
        strict ==> (res matches Err(e) && e@ == parse_failure_message(sig@, byte@)
            && final(transformed)@ == old(transformed)@),
        !strict ==> (res is Ok && final(transformed)@ == old(transformed)@.push(None)),
{
    if strict {
        let mut msg = String::from_str("Failed to parse byte \"");
        msg.append(sig);
        msg.append("\" in signature ");
        msg.append(byte);
        msg.append(". CRASHING, SINCE WE'RE IN DEBUG MODE!");
        proof {
            reveal_strlit("Failed to parse byte \"");
            reveal_strlit("\" in signature ");
            reveal_strlit(". CRASHING, SINCE WE'RE IN DEBUG MODE!");
        }
        Err(SignatureError(msg))
    } else {
        transformed.push(None);
        Ok(())
    }
}

/// Appends the entry for the token `sig[start..end]` (in characters).
fn push_token(
    transformed: &mut Vec<Option<u8>>,
    sig: &str,
    start: usize,
    end: usize,
    strict: bool,
) -> (res: Result<(), SignatureError>)
    requires
        start < end <= sig@.len(),
    ensures
        ({
            let t = sig@.subrange(start as int, end as int);
            match res {
                Ok(()) => {
                    &&& final(transformed)@ == old(transformed)@.push(lenient_entry(t))
                    &&& strict ==> token_entry(t) is Some
                },
                Err(e) => {
                    &&& strict
                    &&& token_entry(t) is None
                    &&& e@ == parse_failure_message(sig@, t)
                },
            }
        }),
{
    match token_entry_exec(sig, start, end) {
        Some(entry) => {
            transformed.push(entry);
            Ok(())
        },
        None => {
            let byte = sig.substring_char(start, end);
            handle_hex_parse_error(transformed, sig, byte, strict)
        },
    }
}

/// Turns a human-written signature such as `"48 8B 05 ?? ?? ?? ??"` into a byte pattern, one
/// entry per whitespace-separated token: `None` is a wildcard. A malformed token is an error in
/// strict mode and a wildcard otherwise.
pub fn transform_sig_from_human(sig: &str, strict: bool) -> (res: Result<
    Vec<Option<u8>>,
    SignatureError,
>)
    ensures
        ({
            let toks = split_whitespace(sig@);
            match res {
                Ok(v) => {
                    &&& v@ == toks.map_values(|t: Seq<char>| lenient_entry(t))
                    &&& strict ==> forall|k: int|
                        0 <= k < toks.len() ==> token_entry(#[trigger] toks[k]) is Some
                },
                Err(e) => {
                    &&& strict
                    &&& exists|k: int|
                        first_malformed(toks, k) && e@ == parse_failure_message(sig@, toks[k])
                },
            }
        }),
        !strict ==> res is Ok,
{
    let n = sig.unicode_len();
    let mut transformed: Vec<Option<u8>> = Vec::new();
    let mut start: usize = 0;
    let mut in_token = false;
    let mut i: usize = 0;
    while i < n
        invariant
            n == sig@.len(),
            i <= n,
            ({
                let (done, cur) = split_state(sig@, i as nat);
                &&& in_token <==> cur.len() > 0
                &&& in_token ==> start < i && cur == sig@.subrange(start as int, i as int)
                &&& transformed@ == done.map_values(|t: Seq<char>| lenient_entry(t))
                &&& strict ==> forall|k: int|
                    0 <= k < done.len() ==> token_entry(#[trigger] done[k]) is Some
            }),
        decreases n - i,
    {
        let ghost (done, cur) = split_state(sig@, i as nat);
        let c = sig.get_char(i);
        if is_whitespace_exec(c) {
            if in_token {
                let ghost before = transformed@;
                match push_token(&mut transformed, sig, start, i, strict) {
                    Ok(()) => {},
                    Err(e) => {
                        proof {
                            assert(split_state(sig@, (i + 1) as nat).0 == done.push(cur));
                            lemma_first_malformed_in_prefix(sig@, (i + 1) as nat, done.len() as int);
                        }
                        return Err(e);
                    },
                }
                assert(transformed@ =~= done.push(cur).map_values(
                    |t: Seq<char>| lenient_entry(t),
                ));
                in_token = false;
            }
        } else {
            if !in_token {
                start = i;
                in_token = true;
            }
            assert(cur.push(c) =~= sig@.subrange(start as int, i + 1));
        }
        i = i + 1;
    }
    let ghost (done, cur) = split_state(sig@, n as nat);
    if in_token {
        match push_token(&mut transformed, sig, start, n, strict) {
            Ok(()) => {},
            Err(e) => {
                proof {
                    let toks = split_whitespace(sig@);
                    assert(toks == done.push(cur));
                    assert(toks[done.len() as int] == cur);
                    assert forall|j: int| 0 <= j < done.len() implies token_entry(
                        #[trigger] toks[j],
                    ) is Some by {
                        assert(toks[j] == done[j]);
                    }
                    assert(first_malformed(toks, done.len() as int));
                }
                return Err(e);
            },
        }
        assert(transformed@ =~= done.push(cur).map_values(|t: Seq<char>| lenient_entry(t)));
    }
    Ok(transformed)
}

/// Tokens finished while reading a prefix stay tokens of the whole signature.
proof fn lemma_split_state_prefix(s: Seq<char>, m: nat, n: nat)
    requires
        m <= n <= s.len(),
    ensures
        split_state(s, m).0.len() <= split_state(s, n).0.len(),
        forall|k: int|
            0 <= k < split_state(s, m).0.len() ==> split_state(s, n).0[k] == split_state(
                s,
                m,
            ).0[k],
    decreases n - m,
{
    if m < n {
        lemma_split_state_prefix(s, m, (n - 1) as nat);
    }
}

proof fn lemma_split_state_in_result(s: Seq<char>, n: nat)
    requires
        n <= s.len(),
    ensures
        split_state(s, n).0.len() <= split_whitespace(s).len(),
        forall|k: int|
            0 <= k < split_state(s, n).0.len() ==> split_whitespace(s)[k] == split_state(
                s,
                n,
            ).0[k],
{
    lemma_split_state_prefix(s, n, s.len());
}

/// The token at index `k` of the prefix state, when malformed and preceded only by well-formed
/// tokens, is the first malformed token of the whole signature.
proof fn lemma_first_malformed_in_prefix(s: Seq<char>, n: nat, k: int)
    requires
        n <= s.len(),
        0 <= k < split_state(s, n).0.len(),
        token_entry(split_state(s, n).0[k]) is None,
        forall|j: int| 0 <= j < k ==> token_entry(#[trigger] split_state(s, n).0[j]) is Some,
    ensures
        first_malformed(split_whitespace(s), k),
        split_whitespace(s)[k] == split_state(s, n).0[k],
{
    lemma_split_state_in_result(s, n);
    let toks = split_whitespace(s);
    assert forall|j: int| 0 <= j < k implies token_entry(#[trigger] toks[j]) is Some by {
        assert(toks[j] == split_state(s, n).0[j]);
    }
}

/// `needle` matches `haystack` at offset `i`: every concrete byte of the needle equals
/// the haystack byte under it, and wildcards (`None`) match anything.
pub open spec fn matches_at(haystack: Seq<u8>, needle: Seq<Option<u8>>, i: int) -> bool {
    &&& 0 <= i
    &&& i + needle.len() <= haystack.len()
    &&& forall|j: int| #![trigger needle[j]]
        0 <= j < needle.len() ==> (needle[j] matches Some(b) ==> haystack[i + j] == b)
}

fn matches_at_exec(haystack: &[u8], needle: &[Option<u8>], i: usize) -> (res: bool)
    requires
        i + needle@.len() <= haystack@.len(),
    ensures
        res == matches_at(haystack@, needle@, i as int),
{
    let hlen = haystack.len();
    let mut j: usize = 0;
    while j < needle.len()
        invariant
            hlen == haystack@.len(),
            i + needle@.len() <= haystack@.len(),
            j <= needle@.len(),
            forall|k: int| #![trigger needle@[k]]
                0 <= k < j ==> (needle@[k] matches Some(b) ==> haystack@[i + k] == b),
        decreases needle@.len() - j,
    {
        if let Some(b) = needle[j] {
            if haystack[i + j] != b {
                return false;
            }
        }
        j = j + 1;
    }
    true
}

/// Law: a pattern of concrete bytes matches exactly where the haystack holds those bytes, whatever
/// their values (zero included); a pattern of wildcards matches at every offset where it fits; and
/// at a match, every concrete byte of any pattern lies under an equal haystack byte.
pub proof fn law_match_honours_bytes(haystack: Seq<u8>, bytes: Seq<u8>, needle: Seq<Option<u8>>, i: int)
    ensures
        matches_at(haystack, bytes.map_values(|b: u8| Some(b)), i) <==> (0 <= i && i + bytes.len()
            <= haystack.len() && haystack.subrange(i, i + bytes.len()) == bytes),
        matches_at(haystack, Seq::new(needle.len(), |k: int| None::<u8>), i) <==> (0 <= i && i
            + needle.len() <= haystack.len()),
        matches_at(haystack, needle, i) ==> forall|j: int|
            0 <= j < needle.len() && needle[j] is Some ==> haystack[i + j] == #[trigger] needle[j]->0,
{
    let p = bytes.map_values(|b: u8| Some(b));
    if 0 <= i && i + bytes.len() <= haystack.len() {
        if matches_at(haystack, p, i) {
            assert forall|j: int| 0 <= j < bytes.len() implies haystack.subrange(i, i + bytes.len())[j]
                == bytes[j] by {
                assert(p[j] == Some(bytes[j]));
            }
            assert(haystack.subrange(i, i + bytes.len()) =~= bytes);
        }
        if haystack.subrange(i, i + bytes.len()) == bytes {
            assert forall|j: int| #![trigger p[j]] 0 <= j < p.len() implies (p[j] matches Some(b)
                ==> haystack[i + j] == b) by {
                assert(haystack.subrange(i, i + bytes.len())[j] == bytes[j]);
            }
        }
    }
    if matches_at(haystack, needle, i) {
        assert forall|j: int| 0 <= j < needle.len() && needle[j] is Some implies haystack[i + j]
            == #[trigger] needle[j]->0 by {
            assert(needle[j] matches Some(b) ==> haystack[i + j] == b);
        }
    }
}

/// Searches `haystack` for the first offset at which the wildcard pattern `needle` matches.
/// An empty haystack, or a needle longer than the haystack, never matches.
pub fn sniff_region(haystack: &[u8], needle: &[Option<u8>]) -> (res: Option<usize>)
    ensures
        match res {
            Some(i) => {
                &&& haystack@.len() > 0
                &&& matches_at(haystack@, needle@, i as int)
                &&& forall|k: int| 0 <= k < i ==> !matches_at(haystack@, needle@, k)
            },
            None => haystack@.len() == 0 || needle@.len() > haystack@.len() || forall|k: int|
                !matches_at(haystack@, needle@, k),
        },
{
    if needle.len() > haystack.len() || haystack.len() == 0 {
        return None;
    }
    let last = haystack.len() - needle.len();
    let mut i: usize = 0;
    while i <= last
        invariant
            last == haystack@.len() - needle@.len(),
            haystack@.len() > 0,
            i <= last + 1,
            forall|k: int| 0 <= k < i ==> !matches_at(haystack@, needle@, k),
        decreases last + 1 - i,
    {
        if matches_at_exec(haystack, needle, i) {
            return Some(i);
        }
        if i == last {
            return None;
        }
        i = i + 1;
    }
    None
}

/// The upper-case hexadecimal digit for `d < 16`.
pub open spec fn hex_char(d: u8) -> char {
    if d < 10 {
        (48 + d) as char
    } else {
        (55 + d) as char
    }
}

/// How a signature writes one pattern entry: two upper-case hex digits for a byte, `??` for a
/// wildcard.
pub open spec fn render_entry(e: Option<u8>) -> Seq<char> {
    match e {
        Some(b) => seq![hex_char(b / 16), hex_char(b % 16)],
        None => seq!['?', '?'],
    }
}

/// A pattern written as a signature: its entries separated by single spaces.
pub open spec fn render_signature(p: Seq<Option<u8>>) -> Seq<char>
    decreases p.len(),
{
    if p.len() == 0 {
        seq![]
    } else if p.len() == 1 {
        render_entry(p[0])
    } else {
        render_signature(p.drop_last()) + seq![' '] + render_entry(p.last())
    }
}

/// The split of a prefix depends only on the characters read so far.
proof fn lemma_split_state_depends_on_prefix(s1: Seq<char>, s2: Seq<char>, n: nat)
    requires
        n <= s1.len(),
        n <= s2.len(),
        forall|i: int| 0 <= i < n ==> s1[i] == s2[i],
    ensures
        split_state(s1, n) == split_state(s2, n),
    decreases n,
{
    if n > 0 {
        lemma_split_state_depends_on_prefix(s1, s2, (n - 1) as nat);
    }
}

proof fn lemma_hex_char(d: u8)
    requires
        d < 16,
    ensures
        hex_digit(hex_char(d)) == Some(d),
        !is_whitespace(hex_char(d)),
        hex_char(d) != '?',
        hex_char(d) != '+',
        char_utf8_len(hex_char(d)) == 1,
{
}

/// A written entry is one token that reads back as the entry.
proof fn lemma_render_entry(e: Option<u8>)
    ensures
        render_entry(e).len() == 2,
        !is_whitespace(render_entry(e)[0]),
        !is_whitespace(render_entry(e)[1]),
        token_entry(render_entry(e)) == Some(e),
{
    let t = render_entry(e);
    match e {
        Some(b) => {
            lemma_hex_char(b / 16);
            lemma_hex_char(b % 16);
            assert(t.drop_last().drop_last() =~= Seq::<char>::empty());
            assert(t.drop_last() =~= seq![t[0]]);
            assert(t.last() == t[1]);
            assert(t.drop_last().last() == t[0]);
            assert(utf8_len(t) == 2) by {
                reveal_with_fuel(utf8_len, 3);
            }
            assert(((b / 16) * 16 + b % 16) as u8 == b);
        },
        None => {},
    }
}

/// Reading a written pattern of at least one entry ends with every entry but the last finished
/// and the last one in progress.
proof fn lemma_split_rendered(p: Seq<Option<u8>>)
    requires
        p.len() > 0,
    ensures
        split_state(render_signature(p), render_signature(p).len()) == (
            p.drop_last().map_values(|e: Option<u8>| render_entry(e)),
            render_entry(p.last()),
        ),
    decreases p.len(),
{
    let s = render_signature(p);
    let e = p.last();
    let t = render_entry(e);
    lemma_render_entry(e);
    if p.len() == 1 {
        assert(p.last() == p[0]);
        assert(s == t);
        assert(split_state(s, 2).1 =~= t) by {
            reveal_with_fuel(split_state, 3);
            assert(split_state(s, 1).1 =~= seq![t[0]]);
        }
        assert(split_state(s, 2).0 =~= Seq::<Seq<char>>::empty()) by {
            reveal_with_fuel(split_state, 3);
        }
        assert(p.drop_last().map_values(|e: Option<u8>| render_entry(e)) =~= Seq::<Seq<char>>::empty());
    } else {
        let q = p.drop_last();
        let r = render_signature(q);
        lemma_split_rendered(q);
        assert(s == r + seq![' '] + t);
        lemma_split_state_depends_on_prefix(s, r, r.len());
        let done = q.drop_last().map_values(|e: Option<u8>| render_entry(e));
        let cur = render_entry(q.last());
        lemma_render_entry(q.last());
        assert(s[r.len() as int] == ' ');
        assert(split_state(s, r.len() + 1) == (done.push(cur), Seq::<char>::empty()));
        assert(s[r.len() + 1int] == t[0]);
        assert(s[r.len() + 2int] == t[1]);
        assert(split_state(s, r.len() + 2) == (done.push(cur), seq![t[0]]));
        assert(split_state(s, r.len() + 3).1 =~= t);
        assert(done.push(cur) =~= p.drop_last().map_values(|e: Option<u8>| render_entry(e)));
    }
}

/// The hexadecimal digit for `d < 16`, in upper case (`upper`) or lower case.
pub open spec fn hex_char_in_case(d: u8, upper: bool) -> char {
    if d < 10 {
        (48 + d) as char
    } else if upper {
        (55 + d) as char
    } else {
        (87 + d) as char
    }
}

/// Law: the hexadecimal digits are read in either case: each of the 22 digit characters reads as
/// its value, no other character reads as a digit, and every two-digit token, whatever the case of
/// each digit, reads as the byte `16 * hi + lo`.
pub proof fn law_hex_digits_either_case(c: char, hi: u8, lo: u8, upper_hi: bool, upper_lo: bool)
    requires
        hi < 16,
        lo < 16,
    ensures
        hex_digit(hex_char_in_case(hi, upper_hi)) == Some(hi),
        hex_digit(c) matches Some(v) ==> v < 16 && (c == hex_char_in_case(v, true) || c
            == hex_char_in_case(v, false)),
        token_entry(seq![hex_char_in_case(hi, upper_hi), hex_char_in_case(lo, upper_lo)]) == Some(
            Some((16 * hi + lo) as u8),
        ),
{
    let t = seq![hex_char_in_case(hi, upper_hi), hex_char_in_case(lo, upper_lo)];
    assert(t.drop_last() =~= seq![t[0]]);
    assert(t.drop_last().drop_last() =~= Seq::<char>::empty());
    assert(t.last() == t[1]);
    assert(t.drop_last().last() == t[0]);
    assert(char_utf8_len(t[0]) == 1 && char_utf8_len(t[1]) == 1);
    assert(utf8_len(t) == 2) by {
        reveal_with_fuel(utf8_len, 3);
    }
    assert(hex_digit(t[0]) == Some(hi));
    assert(hex_digit(t[1]) == Some(lo));
}

/// Law: a token that begins with `?`, or that has three or more characters, is a wildcard; a
/// single hex digit, in either case, reads as its value; and a `+` followed by a hex digit reads as
/// that digit.
pub proof fn law_token_kinds(t: Seq<char>, d: u8, upper: bool)
    requires
        d < 16,
    ensures
        t.len() > 0 && t[0] == '?' ==> token_entry(t) == Some(None::<u8>),
        t.len() >= 3 ==> token_entry(t) == Some(None::<u8>),
        token_entry(seq![hex_char_in_case(d, upper)]) == Some(Some(d)),
        token_entry(seq!['+', hex_char_in_case(d, upper)]) == Some(Some(d)),
{
    if t.len() >= 3 {
        lemma_utf8_len_at_least_len(t);
    }
    let one = seq![hex_char_in_case(d, upper)];
    assert(one.drop_last() =~= Seq::<char>::empty());
    assert(one.last() == one[0]);
    assert(utf8_len(one) == 1) by {
        reveal_with_fuel(utf8_len, 2);
    }
    let two = seq!['+', hex_char_in_case(d, upper)];
    assert(two.drop_last() =~= seq!['+']);
    assert(two.drop_last().drop_last() =~= Seq::<char>::empty());
    assert(two.last() == two[1]);
    assert(two.drop_last().last() == '+');
    assert(utf8_len(two) == 2) by {
        reveal_with_fuel(utf8_len, 3);
    }
}

/// A character sequence takes at least one byte per character.
proof fn lemma_utf8_len_at_least_len(t: Seq<char>)
    ensures
        utf8_len(t) >= t.len(),
    decreases t.len(),
{
    if t.len() > 0 {
        lemma_utf8_len_at_least_len(t.drop_last());
    }
}

/// Law: a pattern written as a signature (upper-case hex bytes and `??` wildcards, separated by
/// spaces) reads back as the same pattern, with no malformed token.
pub proof fn law_signature_roundtrip(p: Seq<Option<u8>>)
    ensures
        split_whitespace(render_signature(p)).map_values(|t: Seq<char>| lenient_entry(t)) == p,
        forall|k: int|
            0 <= k < split_whitespace(render_signature(p)).len() ==> token_entry(
                #[trigger] split_whitespace(render_signature(p))[k],
            ) is Some,
{
    let toks = split_whitespace(render_signature(p));
    if p.len() == 0 {
        assert(toks =~= Seq::<Seq<char>>::empty());
        assert(toks.map_values(|t: Seq<char>| lenient_entry(t)) =~= p);
    } else {
        lemma_split_rendered(p);
        lemma_render_entry(p.last());
        assert(toks =~= p.map_values(|e: Option<u8>| render_entry(e)));
        assert forall|k: int| 0 <= k < toks.len() implies token_entry(#[trigger] toks[k]) == Some(p[k]) by {
            lemma_render_entry(p[k]);
        }
        assert(toks.map_values(|t: Seq<char>| lenient_entry(t)) =~= p);
    }
}

} // verus!
