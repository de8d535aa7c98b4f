//! Who may upload: the uploader sends `Basic <token>` and the token must be
//! one of the lines of the users file.
use vstd::prelude::*;
use vstd::string::*;

use crate::text::{lemma_split_on_absent, lemma_split_on_join, trim_end, trim_start, contains_seq, lemma_replace_absent, lemma_replace_prefix, chars_equal, chars_of, lemma_split_on_nonempty, replace_all, replace_str, split_chars, split_on, trim, trim_chars, views};

verus! {

/// The lines of `s`, as `str::lines` yields them once each line is trimmed:
/// the pieces between newlines, without the empty piece after a final newline.
pub open spec fn text_lines(s: Seq<char>) -> Seq<Seq<char>> {
    let pieces = split_on(s, '\n');
    if pieces.last().len() == 0 {
        pieces.drop_last()
    } else {
        pieces
    }
}

/// The token carried by an `Authorization` header: the header with every
/// `Basic ` removed.
pub open spec fn spec_auth_token(header: Seq<char>) -> Seq<char> {
    replace_all(header, "Basic "@, ""@)
}

/// Whether `token` equals one of the lines of `users`, each line trimmed.
pub open spec fn spec_whitelisted(users: Seq<char>, token: Seq<char>) -> bool {
    exists|i: int| 0 <= i < text_lines(users).len() && trim(#[trigger] text_lines(users)[i]) == token
}

/// The token carried by an `Authorization` header.
pub fn auth_token(header: &str) -> (res: String)
    ensures
        res@ == spec_auth_token(header@),
{
    proof {
        reveal_strlit("Basic ");
    }
    replace_str(header, "Basic ", "")
}

/// Whether `token` is on the whitelist held by the users file `users`.
pub fn is_whitelisted(users: &str, token: &str) -> (res: bool)
    ensures
        res == spec_whitelisted(users@, token@),
{
    let text = chars_of(users);
    let wanted = chars_of(token);
    let pieces = split_chars(&text, '\n');
    proof {
        lemma_split_on_nonempty(users@, '\n');
    }
    let n_lines: usize = if pieces[pieces.len() - 1].len() == 0 {
        pieces.len() - 1
    } else {
        pieces.len()
    };
    let ghost lines = text_lines(users@);
    assert(lines.len() == n_lines);
    assert forall|i: int| 0 <= i < n_lines implies #[trigger] lines[i] == pieces@[i]@ by {
        assert(views(pieces@)[i] == pieces@[i]@);
    }
    let mut i: usize = 0;
    while i < n_lines
        invariant
            n_lines <= pieces.len(),
            lines.len() == n_lines,
            lines == text_lines(users@),
            wanted@ == token@,
            forall|k: int| 0 <= k < n_lines ==> #[trigger] lines[k] == pieces@[k]@,
            forall|k: int| 0 <= k < i ==> trim(#[trigger] lines[k]) != wanted@,
            i <= n_lines,
        decreases n_lines - i,
    {
        let line = trim_chars(&pieces[i]);
        assert(lines[i as int] == pieces@[i as int]@);
        if chars_equal(&line, &wanted) {
            return true;
        }
        i = i + 1;
    }
    false
}

/// Whether an upload is authorized, given the `Authorization` header (if
/// the request has one) and the users file (if it could be read).
pub fn check_authorize(auth_header: Option<&str>, users_file: Option<&str>) -> (res: bool)
    ensures
        res == (auth_header matches Some(h) && users_file matches Some(u) && spec_whitelisted(
            u@,
            spec_auth_token(h@),
        )),
{
    match auth_header {
        None => false,
        Some(h) => {
            let token = auth_token(h);
            match users_file {
                None => false,
                Some(u) => is_whitelisted(u, token.as_str()),
            }
        },
    }
}

/// An uploader whose `Authorization` header is `Basic <token>`, where the
/// token is one of the lines of the users file (surrounding whitespace
/// aside) and holds no `Basic ` of its own, is authorized.
pub proof fn lemma_listed_token_authorized(token: Seq<char>, users: Seq<char>, line: int)
    requires
        !contains_seq(token, "Basic "@),
        0 <= line < text_lines(users).len(),
        trim(text_lines(users)[line]) == token,
    ensures
        spec_auth_token("Basic "@ + token) == token,
        spec_whitelisted(users, spec_auth_token("Basic "@ + token)),
{
    reveal_strlit("Basic ");
    reveal_strlit("");
    lemma_replace_prefix(token, "Basic "@, ""@);
    lemma_replace_absent(token, "Basic "@, ""@);
    assert(""@ + token =~= token);
}

/// Whether a non-empty token is whitelisted does not depend on a newline
/// after the users file's last line. (An empty token is the exception:
/// `lines` yields an empty line for the second of two final newlines.)
pub proof fn lemma_whitelist_final_newline(users: Seq<char>, token: Seq<char>)
    requires
        token.len() > 0,
    ensures
        spec_whitelisted(users, token) == spec_whitelisted(users + seq!['\n'], token),
{
    let s = users + seq!['\n'];
    assert(s.drop_last() =~= users);
    lemma_split_on_nonempty(users, '\n');
    let p = split_on(users, '\n');
    assert(split_on(s, '\n') == p.push(Seq::empty()));
    assert(text_lines(s) =~= p);
    let empty = Seq::<char>::empty();
    assert(trim_start(empty) == empty);
    assert(trim_end(empty) == empty);
    assert(trim(empty) == empty);
    if spec_whitelisted(users, token) {
        let i = choose|i: int|
            0 <= i < text_lines(users).len() && trim(#[trigger] text_lines(users)[i]) == token;
        assert(text_lines(users)[i] == p[i]);
        assert(trim(text_lines(s)[i]) == token);
    }
    if spec_whitelisted(s, token) {
        let i = choose|i: int| 0 <= i < text_lines(s).len() && trim(#[trigger] text_lines(s)[i]) == token;
        if p.last().len() == 0 && i == p.len() - 1 {
            assert(p[i] =~= empty);
        } else {
            assert(text_lines(users)[i] == p[i]);
        }
    }
}

/// A token equal to the trimmed text of a non-empty line is whitelisted
/// when that line ends the users file, whether it is the only line or
/// follows a newline.
pub proof fn lemma_last_line_whitelisted(before: Seq<char>, line: Seq<char>, token: Seq<char>)
    requires
        line.len() > 0,
        forall|i: int| 0 <= i < line.len() ==> #[trigger] line[i] != '\n',
        trim(line) == token,
        before.len() == 0 || before.last() == '\n',
    ensures
        spec_whitelisted(before + line, token),
{
    lemma_split_on_absent(line, '\n');
    if before.len() == 0 {
        assert(before + line =~= line);
        assert(text_lines(line) =~= seq![line]);
        assert(trim(text_lines(line)[0]) == token);
    } else {
        let q = before.drop_last();
        assert(before + line =~= q + seq!['\n'] + line);
        lemma_split_on_join(q, line, '\n');
        let ps = split_on(q, '\n') + seq![line];
        assert(split_on(before + line, '\n') == ps);
        assert(ps.last() == line);
        assert(text_lines(before + line) == ps);
        let k = ps.len() - 1;
        assert(trim(text_lines(before + line)[k]) == token);
    }
}

} // verus!
