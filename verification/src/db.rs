//! The credential-file logic the database collaborators share: the line
//! format of the password file and the lookup over its lines. Reading and
//! writing the file itself stays with the caller.
use vstd::prelude::*;

verus! {

/// The server prefix of a password-file line: host, port, database and user
/// joined by colons.
pub open spec fn pgpass_prefix(
    host: Seq<char>,
    port: Seq<char>,
    database: Seq<char>,
    user: Seq<char>,
) -> Seq<char> {
    host + seq![':'] + port + seq![':'] + database + seq![':'] + user
}

/// One full password-file line: the server prefix and the password.
pub open spec fn pgpass_line_spec(
    host: Seq<char>,
    port: Seq<char>,
    database: Seq<char>,
    user: Seq<char>,
    password: Seq<char>,
) -> Seq<char> {
    pgpass_prefix(host, port, database, user) + seq![':'] + password
}

fn push_colon(s: &mut String)
    ensures
        final(s)@ == old(s)@ + seq![':'],
{
    proof {
        reveal_strlit(":");
    }
    s.append(":");
    assert(final(s)@ =~= old(s)@ + seq![':']);
}

/// The credential line written to the password file.
pub fn pgpass_line(host: &str, port: &str, database: &str, user: &str, password: &str) -> (r:
    String)
    ensures
        r@ == pgpass_line_spec(host@, port@, database@, user@, password@),
{
    let mut s = String::new();
    s.append(host);
    push_colon(&mut s);
    s.append(port);
    push_colon(&mut s);
    s.append(database);
    push_colon(&mut s);
    s.append(user);
    push_colon(&mut s);
    s.append(password);
    assert(s@ =~= pgpass_line_spec(host@, port@, database@, user@, password@));
    s
}

/// One sequence begins with the other.
pub open spec fn has_prefix(s: Seq<char>, p: Seq<char>) -> bool {
    s.len() >= p.len() && s.take(p.len() as int) == p
}

/// Whether `s` begins with `p`.
#[verifier::loop_isolation(false)]
pub fn str_starts_with(s: &str, p: &str) -> (r: bool)
    ensures
        r == has_prefix(s@, p@),
{
    let sl = s.unicode_len();
    let pl = p.unicode_len();
    if sl < pl {
        return false;
    }
    let mut i: usize = 0;
    while i < pl
        invariant
            0 <= i <= pl,
            forall|j: int| 0 <= j < i ==> s@[j] == p@[j],
        decreases pl - i,
    {
        if s.get_char(i) != p.get_char(i) {
            proof {
                if has_prefix(s@, p@) {
                    assert(s@.take(p@.len() as int)[i as int] == p@[i as int]);
                }
            }
            return false;
        }
        i = i + 1;
    }
    proof {
        assert(s@.take(p@.len() as int) =~= p@);
    }
    true
}

/// What the password-file lookup finds: the password field of the last line
/// that begins with the server prefix.
pub open spec fn pgpass_lookup_spec(lines: Seq<Seq<char>>, prefix: Seq<char>) -> Option<Seq<char>>
    decreases lines.len(),
{
    if lines.len() == 0 {
        None
    } else if has_prefix(lines.last(), prefix) {
        Some(crate::text::split_on(lines.last(), ':').last())
    } else {
        pgpass_lookup_spec(lines.drop_last(), prefix)
    }
}

/// Finds the password for the server in the password file's lines: the last
/// field of the last line that begins with host, port, database and user.
#[verifier::loop_isolation(false)]
pub fn pgpass_lookup(
    lines: &Vec<String>,
    host: &str,
    port: &str,
    database: &str,
    user: &str,
) -> (r: Option<String>)
    ensures
        match r {
            Some(p) => pgpass_lookup_spec(
                lines.deep_view(),
                pgpass_prefix(host@, port@, database@, user@),
            ) == Some(p@),
            None => pgpass_lookup_spec(
                lines.deep_view(),
                pgpass_prefix(host@, port@, database@, user@),
            ) is None,
        },
{
    let mut prefix = String::new();
    prefix.append(host);
    push_colon(&mut prefix);
    prefix.append(port);
    push_colon(&mut prefix);
    prefix.append(database);
    push_colon(&mut prefix);
    prefix.append(user);
    proof {
        assert(prefix@ =~= pgpass_prefix(host@, port@, database@, user@));
    }
    let ghost lv = lines.deep_view();
    let mut result: Option<String> = None;
    let mut i: usize = 0;
    proof {
        assert(lv.take(0) =~= Seq::<Seq<char>>::empty());
    }
    while i < lines.len()
        invariant
            0 <= i <= lv.len(),
            lv.len() == lines@.len(),
            match result {
                Some(p) => pgpass_lookup_spec(lv.take(i as int), prefix@) == Some(p@),
                None => pgpass_lookup_spec(lv.take(i as int), prefix@) is None,
            },
        decreases lv.len() - i,
    {
        proof {
            assert(lv.take(i + 1).drop_last() =~= lv.take(i as int));
            assert(lv.take(i + 1).last() == lv[i as int]);
        }
        if str_starts_with(lines[i].as_str(), prefix.as_str()) {
            let parts = crate::text::split_char(lines[i].as_str(), ':');
            let last = parts.len() - 1;
            result = Some(parts[last].clone());
            proof {
                assert(parts.deep_view()[last as int] == crate::text::split_on(
                    lv[i as int],
                    ':',
                ).last());
            }
        }
        i = i + 1;
    }
    proof {
        assert(lv.take(lv.len() as int) =~= lv);
    }
    result
}

} // verus!
