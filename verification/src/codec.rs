//! The text form of the persisted record: a document of key/value lines —
//! the two indices first, then one block per identity — with quoted,
//! escaped strings. The emitter and the parser are both specified here,
//! and emitting then parsing is proved to give the record back.
//!
//! The grammar is the store's own, fixed down to the line: every line is
//! newline-terminated; the document opens with `previous_user = N` and
//! `current_user = N`; each identity is a blank line, a `[[users]]`
//! header, a `name = "..."` line and an `email = "..."` line, in that
//! order. Quoted strings escape the quote, the backslash, and the
//! newline, tab and carriage-return characters. A hand-edited document
//! is read back as long as it keeps this shape — blocks may be added,
//! removed or reworded, and the indices changed, even to stale values,
//! which only a later lookup rejects. Anything outside the shape is a
//! parse failure, surfaced to the caller, never silently defaulted.

use vstd::prelude::*;
use crate::config::{Config, ConfigV, User, UserV, users_views};
use crate::dec::{dec_rep, digit_val, parse_digits, scan_digits, push_dec, lemma_dec_rep};
use crate::chars::{chars_of_str, string_from_chars, chars_eq, has_prefix};

verus! {

/// The key of the previous-index line, up to the value.
pub open spec fn prev_prefix() -> Seq<char> {
    "previous_user = "@
}

/// The key of the current-index line, up to the value.
pub open spec fn cur_prefix() -> Seq<char> {
    "current_user = "@
}

/// The header line that opens one identity block.
pub open spec fn users_header() -> Seq<char> {
    "[[users]]"@
}

/// The name line of an identity block, up to the opening quote.
pub open spec fn name_prefix() -> Seq<char> {
    "name = \""@
}

/// The email line of an identity block, up to the opening quote.
pub open spec fn email_prefix() -> Seq<char> {
    "email = \""@
}

/// How one character is written inside a quoted string.
pub open spec fn esc_char(c: char) -> Seq<char> {
    if c == '"' {
        seq!['\\', '"']
    } else if c == '\\' {
        seq!['\\', '\\']
    } else if c == '\n' {
        seq!['\\', 'n']
    } else if c == '\t' {
        seq!['\\', 't']
    } else if c == '\r' {
        seq!['\\', 'r']
    } else {
        seq![c]
    }
}

/// How a string is written inside quotes: each character in turn.
pub open spec fn esc(s: Seq<char>) -> Seq<char>
    decreases s.len(),
{
    if s.len() == 0 {
        Seq::empty()
    } else {
        esc_char(s[0]) + esc(s.skip(1))
    }
}

/// The character an escape code stands for.
pub open spec fn unesc_code(c: char) -> Option<char> {
    if c == '"' {
        Some('"')
    } else if c == '\\' {
        Some('\\')
    } else if c == 'n' {
        Some('\n')
    } else if c == 't' {
        Some('\t')
    } else if c == 'r' {
        Some('\r')
    } else {
        None
    }
}

/// Reading a quoted string's body back: escape pairs become their
/// characters, a bare quote or a trailing backslash or an unknown escape
/// is malformed.
pub open spec fn unesc(s: Seq<char>) -> Option<Seq<char>>
    decreases s.len(),
{
    if s.len() == 0 {
        Some(Seq::empty())
    } else if s[0] == '\\' {
        if s.len() >= 2 {
            match unesc_code(s[1]) {
                Some(c) => match unesc(s.skip(2)) {
                    Some(t) => Some(seq![c] + t),
                    None => None,
                },
                None => None,
            }
        } else {
            None
        }
    } else if s[0] == '"' {
        None
    } else {
        match unesc(s.skip(1)) {
            Some(t) => Some(seq![s[0]] + t),
            None => None,
        }
    }
}

/// A line's content: no newline in it.
pub open spec fn line_ok(l: Seq<char>) -> bool {
    forall|i: int| 0 <= i < l.len() ==> #[trigger] l[i] != '\n'
}

/// All lines of a list are newline-free.
pub open spec fn lines_ok(ls: Seq<Seq<char>>) -> bool {
    forall|i: int| 0 <= i < ls.len() ==> line_ok(#[trigger] ls[i])
}

/// The lines of a newline-terminated document, in order and without
/// their terminators; a document whose last line is unterminated has no
/// line reading.
pub open spec fn split_lines(s: Seq<char>) -> Option<Seq<Seq<char>>>
    decreases s.len(),
{
    if s.len() == 0 {
        Some(Seq::empty())
    } else if s[0] == '\n' {
        match split_lines(s.skip(1)) {
            Some(ls) => Some(seq![Seq::<char>::empty()] + ls),
            None => None,
        }
    } else {
        match split_lines(s.skip(1)) {
            Some(ls) => if ls.len() == 0 {
                None
            } else {
                Some(ls.update(0, seq![s[0]] + ls[0]))
            },
            None => None,
        }
    }
}

/// The document whose lines, each newline-terminated, are the given ones.
pub open spec fn join(ls: Seq<Seq<char>>) -> Seq<char>
    decreases ls.len(),
{
    if ls.len() == 0 {
        Seq::empty()
    } else {
        ls[0] + seq!['\n'] + join(ls.skip(1))
    }
}

/// Escaping a string leaves no newline behind, and reading the escaped
/// form back gives the string again.
pub proof fn lemma_unesc_esc(s: Seq<char>)
    ensures
        unesc(esc(s)) == Some(s),
        line_ok(esc(s)),
    decreases s.len(),
{
    if s.len() == 0 {
        assert(esc(s) =~= Seq::<char>::empty());
    } else {
        lemma_unesc_esc(s.skip(1));
        let e = esc(s);
        let h = esc_char(s[0]);
        assert(e == h + esc(s.skip(1)));
        if s[0] == '"' || s[0] == '\\' || s[0] == '\n' || s[0] == '\t' || s[0] == '\r' {
            assert(h.len() == 2 && h[0] == '\\');
            assert(e[0] == '\\' && e[1] == h[1]);
            assert(e.skip(2) =~= esc(s.skip(1)));
            assert(unesc_code(h[1]) == Some(s[0]));
            assert(unesc(e) == Some(seq![s[0]] + s.skip(1)));
        } else {
            assert(h.len() == 1 && h[0] == s[0]);
            assert(e[0] == s[0] && s[0] != '\\' && s[0] != '"');
            assert(e.skip(1) =~= esc(s.skip(1)));
            assert(unesc(e) == Some(seq![s[0]] + s.skip(1)));
        }
        assert(seq![s[0]] + s.skip(1) =~= s);
        assert(forall|i: int| 0 <= i < e.len() ==> #[trigger] e[i] != '\n') by {
            assert(forall|i: int|
                0 <= i < esc(s.skip(1)).len() ==> #[trigger] esc(s.skip(1))[i] != '\n');
        }
    }
}

/// Reading lines off a document that starts with one terminated,
/// newline-free line: that line comes first, the rest is read on its own.
pub proof fn lemma_split_line(c: Seq<char>, rest: Seq<char>)
    requires
        line_ok(c),
    ensures
        split_lines(c + seq!['\n'] + rest) == match split_lines(rest) {
            Some(ls) => Some(seq![c] + ls),
            None => None::<Seq<Seq<char>>>,
        },
    decreases c.len(),
{
    let s = c + seq!['\n'] + rest;
    if c.len() == 0 {
        assert(s[0] == '\n');
        assert(s.skip(1) =~= rest);
        if split_lines(rest) is Some {
            let ls = split_lines(rest)->Some_0;
            assert(c =~= Seq::<char>::empty());
            assert(seq![Seq::<char>::empty()] + ls =~= seq![c] + ls);
        }
    } else {
        assert(s[0] == c[0] && c[0] != '\n');
        assert(s.skip(1) =~= c.skip(1) + seq!['\n'] + rest);
        assert(line_ok(c.skip(1))) by {
            assert(forall|i: int|
                0 <= i < c.skip(1).len() ==> #[trigger] c.skip(1)[i] == c[i + 1]);
        }
        lemma_split_line(c.skip(1), rest);
        match split_lines(rest) {
            Some(ls) => {
                let inner = seq![c.skip(1)] + ls;
                assert(split_lines(s.skip(1)) == Some(inner));
                assert(inner.len() > 0);
                assert(inner.update(0, seq![s[0]] + inner[0]) =~= seq![c] + ls) by {
                    assert(seq![c[0]] + c.skip(1) =~= c);
                }
            },
            None => {
                assert(split_lines(s.skip(1)) is None);
            },
        }
    }
}

/// Reading lines off joined lines followed by a tail: the lines come
/// back in front of whatever the tail reads to.
pub proof fn lemma_split_join(ls: Seq<Seq<char>>, tail: Seq<char>)
    requires
        lines_ok(ls),
    ensures
        split_lines(join(ls) + tail) == match split_lines(tail) {
            Some(t) => Some(ls + t),
            None => None::<Seq<Seq<char>>>,
        },
    decreases ls.len(),
{
    if ls.len() == 0 {
        assert(join(ls) + tail =~= tail);
        if split_lines(tail) is Some {
            assert(ls + split_lines(tail)->Some_0 =~= split_lines(tail)->Some_0);
        }
    } else {
        let rest = ls.skip(1);
        assert(lines_ok(rest)) by {
            assert(forall|i: int| 0 <= i < rest.len() ==> #[trigger] rest[i] == ls[i + 1]);
        }
        lemma_split_join(rest, tail);
        assert(join(ls) + tail =~= ls[0] + seq!['\n'] + (join(rest) + tail));
        lemma_split_line(ls[0], join(rest) + tail);
        match split_lines(tail) {
            Some(t) => {
                assert(seq![ls[0]] + (rest + t) =~= ls + t);
            },
            None => {},
        }
    }
}

/// Joined newline-free lines read back to exactly those lines.
pub proof fn lemma_split_join_exact(ls: Seq<Seq<char>>)
    requires
        lines_ok(ls),
    ensures
        split_lines(join(ls)) == Some(ls),
{
    lemma_split_join(ls, Seq::empty());
    assert(join(ls) + Seq::<char>::empty() =~= join(ls));
    assert(split_lines(Seq::<char>::empty()) == Some(Seq::<Seq<char>>::empty()));
    assert(ls + Seq::<Seq<char>>::empty() =~= ls);
}

/// What an index line holds: the key, then the decimal value.
pub open spec fn parse_kv(l: Seq<char>, prefix: Seq<char>) -> Option<usize> {
    if l.len() >= prefix.len() && l.take(prefix.len() as int) == prefix {
        parse_digits(l.skip(prefix.len() as int))
    } else {
        None
    }
}

/// What a quoted-string line holds: the key with its opening quote, the
/// escaped body, and the closing quote at the very end.
pub open spec fn parse_qline(l: Seq<char>, prefix: Seq<char>) -> Option<Seq<char>> {
    if l.len() >= prefix.len() + 1 && l.take(prefix.len() as int) == prefix && l.last() == '"' {
        unesc(l.subrange(prefix.len() as int, l.len() - 1))
    } else {
        None
    }
}

/// What the identity blocks hold: groups of a blank line, the header,
/// the name line and the email line, in storage order.
pub open spec fn parse_users_lines(ls: Seq<Seq<char>>) -> Option<Seq<UserV>>
    decreases ls.len(),
{
    if ls.len() == 0 {
        Some(Seq::empty())
    } else if ls.len() < 4 || ls[0].len() != 0 || ls[1] != users_header() {
        None
    } else {
        match parse_qline(ls[2], name_prefix()) {
            None => None,
            Some(nm) => match parse_qline(ls[3], email_prefix()) {
                None => None,
                Some(em) => match parse_users_lines(ls.skip(4)) {
                    None => None,
                    Some(t) => Some(seq![UserV { name: nm, email: em }] + t),
                },
            },
        }
    }
}

/// What a whole document holds: the two index lines, then the identity
/// blocks. Anything else is malformed and has no reading.
pub open spec fn parse_spec(s: Seq<char>) -> Option<ConfigV> {
    match split_lines(s) {
        None => None,
        Some(ls) => if ls.len() < 2 {
            None
        } else {
            match parse_kv(ls[0], prev_prefix()) {
                None => None,
                Some(p) => match parse_kv(ls[1], cur_prefix()) {
                    None => None,
                    Some(cu) => match parse_users_lines(ls.skip(2)) {
                        None => None,
                        Some(us) => Some(
                            ConfigV { users: us, previous_user: p, current_user: cu },
                        ),
                    },
                },
            }
        },
    }
}

/// An index line as the emitter writes it.
pub open spec fn kv_line(prefix: Seq<char>, n: usize) -> Seq<char> {
    prefix + dec_rep(n as nat)
}

/// The four lines of one identity block as the emitter writes them.
pub open spec fn user_lines(u: UserV) -> Seq<Seq<char>> {
    seq![
        Seq::<char>::empty(),
        users_header(),
        name_prefix() + esc(u.name) + seq!['"'],
        email_prefix() + esc(u.email) + seq!['"'],
    ]
}

/// The lines of all identity blocks, in storage order.
pub open spec fn users_lines(us: Seq<UserV>) -> Seq<Seq<char>>
    decreases us.len(),
{
    if us.len() == 0 {
        Seq::empty()
    } else {
        user_lines(us[0]) + users_lines(us.skip(1))
    }
}

/// The lines of a whole record as the emitter writes them.
pub open spec fn emit_lines(c: ConfigV) -> Seq<Seq<char>> {
    seq![kv_line(prev_prefix(), c.previous_user), kv_line(cur_prefix(), c.current_user)]
        + users_lines(c.users)
}

/// The document of a whole record.
pub open spec fn emit_spec(c: ConfigV) -> Seq<char> {
    join(emit_lines(c))
}

/// The keys and the header hold no newline.
proof fn lemma_literals()
    ensures
        line_ok(prev_prefix()),
        line_ok(cur_prefix()),
        line_ok(users_header()),
        line_ok(name_prefix()),
        line_ok(email_prefix()),
        prev_prefix().len() == 16,
        cur_prefix().len() == 15,
        users_header().len() == 9,
        name_prefix().len() == 8,
        email_prefix().len() == 9,
{
    reveal_strlit("previous_user = ");
    reveal_strlit("current_user = ");
    reveal_strlit("[[users]]");
    reveal_strlit("name = \"");
    reveal_strlit("email = \"");
}

/// An emitted index line parses back to its value.
proof fn lemma_kv_line(prefix: Seq<char>, n: usize)
    requires
        line_ok(prefix),
    ensures
        parse_kv(kv_line(prefix, n), prefix) == Some(n),
        line_ok(kv_line(prefix, n)),
{
    lemma_dec_rep(n as nat);
    let l = kv_line(prefix, n);
    assert(l.take(prefix.len() as int) =~= prefix);
    assert(l.skip(prefix.len() as int) =~= dec_rep(n as nat));
    assert(forall|i: int| 0 <= i < l.len() ==> #[trigger] l[i] != '\n') by {
        assert(forall|i: int|
            0 <= i < dec_rep(n as nat).len() ==> digit_val(#[trigger] dec_rep(n as nat)[i]) < 10);
        assert(digit_val('\n') == 10);
    }
}

/// An emitted quoted-string line parses back to its string.
proof fn lemma_qline(prefix: Seq<char>, x: Seq<char>)
    requires
        line_ok(prefix),
    ensures
        parse_qline(prefix + esc(x) + seq!['"'], prefix) == Some(x),
        line_ok(prefix + esc(x) + seq!['"']),
{
    lemma_unesc_esc(x);
    let l = prefix + esc(x) + seq!['"'];
    assert(l.take(prefix.len() as int) =~= prefix);
    assert(l.last() == '"');
    assert(l.subrange(prefix.len() as int, l.len() - 1) =~= esc(x));
}

/// The emitted identity blocks parse back to the identities.
proof fn lemma_users_lines(us: Seq<UserV>)
    ensures
        lines_ok(users_lines(us)),
        parse_users_lines(users_lines(us)) == Some(us),
    decreases us.len(),
{
    lemma_literals();
    if us.len() == 0 {
    } else {
        lemma_users_lines(us.skip(1));
        let u = us[0];
        let ls = users_lines(us);
        let head = user_lines(u);
        assert(ls == head + users_lines(us.skip(1)));
        assert(ls[0] == head[0] && ls[1] == head[1] && ls[2] == head[2] && ls[3] == head[3]);
        lemma_qline(name_prefix(), u.name);
        lemma_qline(email_prefix(), u.email);
        assert(ls.skip(4) =~= users_lines(us.skip(1)));
        assert(seq![UserV { name: u.name, email: u.email }] + us.skip(1) =~= us);
        assert(lines_ok(ls)) by {
            assert(forall|i: int|
                0 <= i < users_lines(us.skip(1)).len() ==> line_ok(
                    #[trigger] users_lines(us.skip(1))[i],
                ));
            assert(line_ok(ls[0]) && line_ok(ls[1]) && line_ok(ls[2]) && line_ok(ls[3]));
        }
    }
}

/// Joining a concatenation of line lists joins each part.
proof fn lemma_join_concat(a: Seq<Seq<char>>, b: Seq<Seq<char>>)
    ensures
        join(a + b) == join(a) + join(b),
    decreases a.len(),
{
    if a.len() == 0 {
        assert(a + b =~= b);
        assert(join(a) + join(b) =~= join(b));
    } else {
        lemma_join_concat(a.skip(1), b);
        assert((a + b).skip(1) =~= a.skip(1) + b);
        assert((a + b)[0] == a[0]);
        assert(a[0] + seq!['\n'] + (join(a.skip(1)) + join(b)) =~= (a[0] + seq!['\n'] + join(
            a.skip(1),
        )) + join(b));
    }
}

/// The blocks of a concatenation of identity lists are the blocks of
/// each part in turn.
proof fn lemma_users_lines_concat(a: Seq<UserV>, b: Seq<UserV>)
    ensures
        users_lines(a + b) == users_lines(a) + users_lines(b),
    decreases a.len(),
{
    if a.len() == 0 {
        assert(a + b =~= b);
        assert(users_lines(a) + users_lines(b) =~= users_lines(b));
    } else {
        lemma_users_lines_concat(a.skip(1), b);
        assert((a + b).skip(1) =~= a.skip(1) + b);
        assert((a + b)[0] == a[0]);
        assert(user_lines(a[0]) + (users_lines(a.skip(1)) + users_lines(b)) =~= (user_lines(a[0])
            + users_lines(a.skip(1))) + users_lines(b));
    }
}

/// Escaping a concatenation escapes each part.
proof fn lemma_esc_concat(a: Seq<char>, b: Seq<char>)
    ensures
        esc(a + b) == esc(a) + esc(b),
    decreases a.len(),
{
    if a.len() == 0 {
        assert(a + b =~= b);
        assert(esc(a) + esc(b) =~= esc(b));
    } else {
        lemma_esc_concat(a.skip(1), b);
        assert((a + b).skip(1) =~= a.skip(1) + b);
        assert((a + b)[0] == a[0]);
        assert(esc_char(a[0]) + (esc(a.skip(1)) + esc(b)) =~= (esc_char(a[0]) + esc(a.skip(1)))
            + esc(b));
    }
}

/// A non-empty newline-free tail is an unterminated line: no reading.
proof fn lemma_unterminated(c: Seq<char>)
    requires
        line_ok(c),
        c.len() > 0,
    ensures
        split_lines(c) is None,
    decreases c.len(),
{
    assert(c[0] != '\n');
    if c.len() == 1 {
        assert(c.skip(1) =~= Seq::<char>::empty());
        assert(split_lines(Seq::<char>::empty()) == Some(Seq::<Seq<char>>::empty()));
    } else {
        assert(line_ok(c.skip(1))) by {
            assert(forall|i: int|
                0 <= i < c.skip(1).len() ==> #[trigger] c.skip(1)[i] == c[i + 1]);
        }
        lemma_unterminated(c.skip(1));
    }
}

/// The document of one identity block, written out.
proof fn lemma_join_user(u: UserV)
    ensures
        join(user_lines(u)) == seq!['\n'] + users_header() + seq!['\n'] + name_prefix() + esc(
            u.name,
        ) + seq!['"', '\n'] + email_prefix() + esc(u.email) + seq!['"', '\n'],
{
    let ls = user_lines(u);
    let l2 = name_prefix() + esc(u.name) + seq!['"'];
    let l3 = email_prefix() + esc(u.email) + seq!['"'];
    assert(ls.skip(1) =~= seq![users_header(), l2, l3]);
    assert(seq![users_header(), l2, l3].skip(1) =~= seq![l2, l3]);
    assert(seq![l2, l3].skip(1) =~= seq![l3]);
    assert(seq![l3].skip(1) =~= Seq::<Seq<char>>::empty());
    assert(join(Seq::<Seq<char>>::empty()) == Seq::<char>::empty());
    assert(join(seq![l3]) =~= l3 + seq!['\n']);
    assert(join(seq![l2, l3]) =~= l2 + seq!['\n'] + (l3 + seq!['\n']));
    assert(join(seq![users_header(), l2, l3]) =~= users_header() + seq!['\n'] + (l2 + seq!['\n']
        + (l3 + seq!['\n'])));
    assert(join(ls) =~= seq!['\n'] + users_header() + seq!['\n'] + name_prefix() + esc(u.name)
        + seq!['"', '\n'] + email_prefix() + esc(u.email) + seq!['"', '\n']);
}

/// Round trip: the document written for any record reads back to
/// exactly that record.
pub proof fn lemma_round_trip(c: ConfigV)
    ensures
        parse_spec(emit_spec(c)) == Some(c),
{
    lemma_literals();
    lemma_users_lines(c.users);
    lemma_kv_line(prev_prefix(), c.previous_user);
    lemma_kv_line(cur_prefix(), c.current_user);
    let ls = emit_lines(c);
    assert(lines_ok(ls)) by {
        assert(forall|i: int|
            0 <= i < users_lines(c.users).len() ==> line_ok(#[trigger] users_lines(c.users)[i]));
    }
    lemma_split_join_exact(ls);
    assert(ls[0] == kv_line(prev_prefix(), c.previous_user));
    assert(ls[1] == kv_line(cur_prefix(), c.current_user));
    assert(ls.skip(2) =~= users_lines(c.users));
    assert(ConfigV { users: c.users, previous_user: c.previous_user, current_user: c.current_user }
        =~= c);
}

/// Appends the escaped form of the characters of `s` to `out`.
fn esc_push(s: &Vec<char>, out: &mut Vec<char>)
    ensures
        final(out)@ == old(out)@ + esc(s@),
{
    let mut i: usize = 0;
    while i < s.len()
        invariant
            i <= s@.len(),
            out@ == old(out)@ + esc(s@.take(i as int)),
        decreases s@.len() - i,
    {
        let c = s[i];
        if c == '"' {
            out.push('\\');
            out.push('"');
        } else if c == '\\' {
            out.push('\\');
            out.push('\\');
        } else if c == '\n' {
            out.push('\\');
            out.push('n');
        } else if c == '\t' {
            out.push('\\');
            out.push('t');
        } else if c == '\r' {
            out.push('\\');
            out.push('r');
        } else {
            out.push(c);
        }
        proof {
            lemma_esc_concat(s@.take(i as int), seq![s@[i as int]]);
            assert(s@.take(i + 1) =~= s@.take(i as int) + seq![s@[i as int]]);
            assert(seq![s@[i as int]].skip(1) =~= Seq::<char>::empty());
            assert(esc(Seq::<char>::empty()) == Seq::<char>::empty());
            assert(esc(seq![s@[i as int]]) =~= esc_char(s@[i as int]));
            assert(out@ =~= old(out)@ + esc(s@.take(i + 1)));
        }
        i = i + 1;
    }
    assert(s@.take(s@.len() as int) =~= s@);
}

/// Writes the record as a document: the two index lines, then one block
/// per identity, in storage order.
pub fn emit_config(config: &Config) -> (r: String)
    ensures
        r@ == emit_spec(config@),
{
    let ghost cv = config@;
    let ghost head = seq![
        kv_line(prev_prefix(), cv.previous_user),
        kv_line(cur_prefix(), cv.current_user),
    ];
    let mut out: Vec<char> = Vec::new();
    let mut pre = chars_of_str("previous_user = ");
    out.append(&mut pre);
    push_dec(config.previous_user, &mut out);
    out.push('\n');
    let mut cur = chars_of_str("current_user = ");
    out.append(&mut cur);
    push_dec(config.current_user, &mut out);
    out.push('\n');
    proof {
        let l1 = kv_line(cur_prefix(), cv.current_user);
        assert(head.skip(1) =~= seq![l1]);
        assert(seq![l1].skip(1) =~= Seq::<Seq<char>>::empty());
        assert(join(Seq::<Seq<char>>::empty()) == Seq::<char>::empty());
        assert(join(seq![l1]) =~= l1 + seq!['\n']);
        assert(join(head) =~= kv_line(prev_prefix(), cv.previous_user) + seq!['\n'] + (l1
            + seq!['\n']));
        assert(out@ =~= join(head));
        assert(users_views(config.users@).take(0) =~= Seq::<UserV>::empty());
        assert(users_lines(Seq::<UserV>::empty()) == Seq::<Seq<char>>::empty());
        assert(head + Seq::<Seq<char>>::empty() =~= head);
    }
    let mut i: usize = 0;
    while i < config.users.len()
        invariant
            i <= config.users@.len(),
            cv == config@,
            head == seq![
                kv_line(prev_prefix(), cv.previous_user),
                kv_line(cur_prefix(), cv.current_user),
            ],
            out@ == join(head + users_lines(users_views(config.users@).take(i as int))),
        decreases config.users@.len() - i,
    {
        let ghost uvs = users_views(config.users@);
        let ghost u = uvs[i as int];
        out.push('\n');
        let mut h = chars_of_str("[[users]]");
        out.append(&mut h);
        out.push('\n');
        let mut np = chars_of_str("name = \"");
        out.append(&mut np);
        let nchars = chars_of_str(config.users[i].name.as_str());
        esc_push(&nchars, &mut out);
        out.push('"');
        out.push('\n');
        let mut ep = chars_of_str("email = \"");
        out.append(&mut ep);
        let echars = chars_of_str(config.users[i].email.as_str());
        esc_push(&echars, &mut out);
        out.push('"');
        out.push('\n');
        proof {
            lemma_join_user(u);
            lemma_users_lines_concat(uvs.take(i as int), seq![u]);
            lemma_join_concat(head + users_lines(uvs.take(i as int)), user_lines(u));
            assert(users_lines(seq![u]) =~= user_lines(u)) by {
                assert(seq![u].skip(1) =~= Seq::<UserV>::empty());
                assert(user_lines(u) + users_lines(Seq::<UserV>::empty()) =~= user_lines(u));
            }
            assert(uvs.take(i + 1) =~= uvs.take(i as int) + seq![u]);
            assert(head + users_lines(uvs.take(i + 1)) =~= (head + users_lines(uvs.take(i as int)))
                + user_lines(u));
            assert(out@ =~= join(head + users_lines(uvs.take(i + 1))));
        }
        i = i + 1;
    }
    proof {
        assert(users_views(config.users@).take(config.users@.len() as int) =~= users_views(
            config.users@,
        ));
        assert(head + users_lines(users_views(config.users@)) =~= emit_lines(cv));
    }
    string_from_chars(&out)
}

/// The mathematical values of a list of lines.
pub open spec fn lines_views(ls: Seq<Vec<char>>) -> Seq<Seq<char>> {
    ls.map(|i: int, l: Vec<char>| l@)
}

/// Splits a document into its newline-terminated lines, or reports that
/// its last line is unterminated.
fn split_lines_exec(v: &Vec<char>) -> (r: Option<Vec<Vec<char>>>)
    ensures
        (r matches Some(ls) ==> split_lines(v@) == Some(lines_views(ls@))),
        (r is None ==> split_lines(v@) is None),
{
    let mut lines: Vec<Vec<char>> = Vec::new();
    let mut current: Vec<char> = Vec::new();
    let mut i: usize = 0;
    proof {
        assert(lines_views(lines@) =~= Seq::<Seq<char>>::empty());
        assert(join(Seq::<Seq<char>>::empty()) == Seq::<char>::empty());
        assert(v@.take(0) =~= Seq::<char>::empty() + current@);
    }
    while i < v.len()
        invariant
            i <= v@.len(),
            v@.take(i as int) == join(lines_views(lines@)) + current@,
            lines_ok(lines_views(lines@)),
            line_ok(current@),
        decreases v@.len() - i,
    {
        let c = v[i];
        if c == '\n' {
            proof {
                lemma_join_concat(lines_views(lines@), seq![current@]);
                assert(join(seq![current@]) =~= current@ + seq!['\n']) by {
                    assert(seq![current@].skip(1) =~= Seq::<Seq<char>>::empty());
                    assert(join(Seq::<Seq<char>>::empty()) == Seq::<char>::empty());
                }
                assert(v@.take(i + 1) =~= v@.take(i as int).push(c));
                assert(lines_views(lines@.push(current)) =~= lines_views(lines@) + seq![
                    current@,
                ]);
                assert(v@.take(i + 1) =~= join(lines_views(lines@) + seq![current@])
                    + Seq::<char>::empty());
                assert(lines_ok(lines_views(lines@) + seq![current@]));
            }
            lines.push(current);
            current = Vec::new();
        } else {
            proof {
                assert(v@.take(i + 1) =~= v@.take(i as int).push(c));
                assert(v@.take(i + 1) =~= join(lines_views(lines@)) + current@.push(c));
                assert(line_ok(current@.push(c)));
            }
            current.push(c);
        }
        i = i + 1;
    }
    proof {
        assert(v@.take(v@.len() as int) =~= v@);
    }
    if current.len() == 0 {
        proof {
            assert(join(lines_views(lines@)) + current@ =~= join(lines_views(lines@)));
            lemma_split_join_exact(lines_views(lines@));
        }
        Some(lines)
    } else {
        proof {
            lemma_split_join(lines_views(lines@), current@);
            lemma_unterminated(current@);
        }
        None
    }
}

/// Reads an index line against its key.
fn parse_kv_exec(l: &Vec<char>, prefix: &Vec<char>) -> (r: Option<usize>)
    ensures
        r == parse_kv(l@, prefix@),
{
    if has_prefix(l, prefix) {
        scan_digits(l, prefix.len())
    } else {
        None
    }
}

/// Reads the body of a quoted string back out of `l[from..to]`.
fn unesc_exec(l: &Vec<char>, from: usize, to: usize) -> (r: Option<Vec<char>>)
    requires
        from <= to <= l@.len(),
    ensures
        (r matches Some(x) ==> unesc(l@.subrange(from as int, to as int)) == Some(x@)),
        (r is None ==> unesc(l@.subrange(from as int, to as int)) is None),
{
    let ghost m = l@.subrange(from as int, to as int);
    let mut out: Vec<char> = Vec::new();
    let mut i: usize = from;
    proof {
        assert(m.skip(0) =~= m);
        if unesc(m) is Some {
            assert(out@ + unesc(m)->Some_0 =~= unesc(m)->Some_0);
        }
    }
    while i < to
        invariant
            from <= i <= to <= l@.len(),
            m == l@.subrange(from as int, to as int),
            unesc(m) == (match unesc(m.skip(i - from)) {
                Some(t) => Some(out@ + t),
                None => None::<Seq<char>>,
            }),
        decreases to - i,
    {
        let ghost rem = m.skip(i - from);
        let c = l[i];
        assert(rem[0] == c);
        if c == '\\' {
            if i + 1 >= to {
                assert(rem.len() == 1);
                return None;
            }
            let code = l[i + 1];
            assert(rem[1] == code);
            let decoded: char = if code == '"' {
                '"'
            } else if code == '\\' {
                '\\'
            } else if code == 'n' {
                '\n'
            } else if code == 't' {
                '\t'
            } else if code == 'r' {
                '\r'
            } else {
                assert(unesc_code(code) is None);
                return None;
            };
            assert(unesc_code(code) == Some(decoded));
            proof {
                assert(rem.skip(2) =~= m.skip(i + 2 - from));
                if unesc(m.skip(i + 2 - from)) is Some {
                    let t = unesc(m.skip(i + 2 - from))->Some_0;
                    assert(out@ + (seq![decoded] + t) =~= out@.push(decoded) + t);
                }
            }
            out.push(decoded);
            i = i + 2;
        } else if c == '"' {
            assert(unesc(rem) is None);
            return None;
        } else {
            proof {
                assert(rem.skip(1) =~= m.skip(i + 1 - from));
                if unesc(m.skip(i + 1 - from)) is Some {
                    let t = unesc(m.skip(i + 1 - from))->Some_0;
                    assert(out@ + (seq![c] + t) =~= out@.push(c) + t);
                }
            }
            out.push(c);
            i = i + 1;
        }
    }
    proof {
        assert(m.skip(to - from) =~= Seq::<char>::empty());
        assert(unesc(Seq::<char>::empty()) == Some(Seq::<char>::empty()));
        assert(out@ + Seq::<char>::empty() =~= out@);
    }
    Some(out)
}

/// Reads a quoted-string line against its key.
fn parse_qline_exec(l: &Vec<char>, prefix: &Vec<char>) -> (r: Option<Vec<char>>)
    ensures
        (r matches Some(x) ==> parse_qline(l@, prefix@) == Some(x@)),
        (r is None ==> parse_qline(l@, prefix@) is None),
{
    if !has_prefix(l, prefix) {
        return None;
    }
    if l.len() <= prefix.len() {
        return None;
    }
    if l[l.len() - 1] != '"' {
        return None;
    }
    unesc_exec(l, prefix.len(), l.len() - 1)
}

/// Reads a document back into a record, or reports that it is
/// malformed. Exactly the documents that `parse_spec` gives a reading
/// are accepted.
pub fn parse_config(text: &str) -> (r: Option<Config>)
    ensures
        (r matches Some(c) ==> parse_spec(text@) == Some(c@)),
        (r is None ==> parse_spec(text@) is None),
{
    let chars = chars_of_str(text);
    let lines = match split_lines_exec(&chars) {
        Some(ls) => ls,
        None => {
            return None;
        },
    };
    let ghost lv = lines_views(lines@);
    if lines.len() < 2 {
        return None;
    }
    let prev_key = chars_of_str("previous_user = ");
    let cur_key = chars_of_str("current_user = ");
    assert(lv[0] == lines@[0]@ && lv[1] == lines@[1]@);
    let previous_user = match parse_kv_exec(&lines[0], &prev_key) {
        Some(p) => p,
        None => {
            return None;
        },
    };
    let current_user = match parse_kv_exec(&lines[1], &cur_key) {
        Some(p) => p,
        None => {
            return None;
        },
    };
    let header = chars_of_str("[[users]]");
    let name_key = chars_of_str("name = \"");
    let email_key = chars_of_str("email = \"");
    let mut users: Vec<User> = Vec::new();
    let mut idx: usize = 2;
    proof {
        assert(users_views(users@) =~= Seq::<UserV>::empty());
        if parse_users_lines(lv.skip(2)) is Some {
            let t = parse_users_lines(lv.skip(2))->Some_0;
            assert(users_views(users@) + t =~= t);
        }
    }
    while idx < lines.len()
        invariant
            2 <= idx <= lines@.len(),
            lv == lines_views(lines@),
            lv.len() >= 2,
            split_lines(text@) == Some(lv),
            parse_kv(lv[0], prev_prefix()) == Some(previous_user),
            parse_kv(lv[1], cur_prefix()) == Some(current_user),
            header@ == users_header(),
            name_key@ == name_prefix(),
            email_key@ == email_prefix(),
            parse_users_lines(lv.skip(2)) == (match parse_users_lines(lv.skip(idx as int)) {
                Some(t) => Some(users_views(users@) + t),
                None => None::<Seq<UserV>>,
            }),
        decreases lines@.len() - idx,
    {
        let ghost rem = lv.skip(idx as int);
        assert(rem.len() == lv.len() - idx);
        if lines.len() - idx < 4 {
            assert(parse_users_lines(rem) is None);
            return None;
        }
        assert(rem[0] == lv[idx as int] && rem[1] == lv[idx + 1] && rem[2] == lv[idx + 2]
            && rem[3] == lv[idx + 3]);
        assert(lv[idx as int] == lines@[idx as int]@ && lv[idx + 1] == lines@[idx as int + 1]@
            && lv[idx + 2] == lines@[idx as int + 2]@ && lv[idx + 3] == lines@[idx as int + 3]@);
        if lines[idx].len() != 0 {
            assert(parse_users_lines(rem) is None);
            return None;
        }
        if !chars_eq(&lines[idx + 1], &header) {
            assert(parse_users_lines(rem) is None);
            return None;
        }
        let nm = match parse_qline_exec(&lines[idx + 2], &name_key) {
            Some(x) => x,
            None => {
                assert(parse_users_lines(rem) is None);
                return None;
            },
        };
        let em = match parse_qline_exec(&lines[idx + 3], &email_key) {
            Some(x) => x,
            None => {
                assert(parse_users_lines(rem) is None);
                return None;
            },
        };
        let user = User { name: string_from_chars(&nm), email: string_from_chars(&em) };
        proof {
            assert(rem.skip(4) =~= lv.skip(idx + 4));
            assert(users_views(users@.push(user)) =~= users_views(users@) + seq![user@]);
            assert(user@ == UserV { name: nm@, email: em@ });
            if parse_users_lines(lv.skip(idx + 4)) is Some {
                let t = parse_users_lines(lv.skip(idx + 4))->Some_0;
                assert(users_views(users@) + (seq![user@] + t) =~= users_views(users@.push(user))
                    + t);
            }
        }
        users.push(user);
        idx = idx + 4;
    }
    proof {
        assert(lv.skip(lines@.len() as int) =~= Seq::<Seq<char>>::empty());
        assert(parse_users_lines(Seq::<Seq<char>>::empty()) == Some(Seq::<UserV>::empty()));
        assert(users_views(users@) + Seq::<UserV>::empty() =~= users_views(users@));
    }
    let config = Config { users, previous_user, current_user };
    proof {
        assert(config@ =~= ConfigV {
            users: users_views(config.users@),
            previous_user,
            current_user,
        });
    }
    Some(config)
}

} // verus!
