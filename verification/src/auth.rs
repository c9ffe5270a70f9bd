//! Reading what the command-line client says of the login.

use crate::error::{ErrorView, TaskMasterError};
use crate::text::{
    chars_of, contains_seq, contains_str, find_from, first_occurrence, owned, split, split_on,
    trim_char, trim_of,
};
use vstd::prelude::*;

verus! {

/// Who is logged in, and with which rights.
#[derive(Debug)]
pub struct AuthStatus {
    pub authenticated: bool,
    pub username: Option<String>,
    pub scopes: Vec<String>,
}

/// The login, as plain values.
pub struct AuthStatusView {
    pub authenticated: bool,
    pub username: Option<Seq<char>>,
    pub scopes: Seq<Seq<char>>,
}

impl View for AuthStatus {
    type V = AuthStatusView;

    open spec fn view(&self) -> AuthStatusView {
        AuthStatusView {
            authenticated: self.authenticated,
            username: self.username.deep_view(),
            scopes: self.scopes.deep_view(),
        }
    }
}

/// What follows the first `marker` in `text`, if `marker` stands in it.
pub open spec fn after_marker(text: Seq<char>, marker: Seq<char>) -> Option<Seq<char>> {
    match first_occurrence(text, marker, 0) {
        Some(i) => Some(text.subrange(i + marker.len(), text.len() as int)),
        None => None,
    }
}

/// What stands before the first `marker` in `text`, if `marker` stands in it.
pub open spec fn before_marker(text: Seq<char>, marker: Seq<char>) -> Option<Seq<char>> {
    match first_occurrence(text, marker, 0) {
        Some(i) => Some(text.subrange(0, i)),
        None => None,
    }
}

/// The name of the account in the client's report: what stands between the
/// first `account ` and the next ` (`.
pub open spec fn username_in(output: Seq<char>) -> Option<Seq<char>> {
    match after_marker(output, "account "@) {
        Some(rest) => before_marker(rest, " ("@),
        None => None,
    }
}

/// Each piece without the quotes around it.
pub open spec fn unquoted(pieces: Seq<Seq<char>>) -> Seq<Seq<char>> {
    Seq::new(pieces.len(), |i: int| trim_of(pieces[i], '\''))
}

/// The rights in the client's report: what stands between `Token scopes: `
/// and the end of that line, cut at each `, `, without quotes.
pub open spec fn scopes_in(output: Seq<char>) -> Seq<Seq<char>> {
    match after_marker(output, "Token scopes: "@) {
        Some(rest) => {
            let line = match before_marker(rest, "\n"@) {
                Some(l) => l,
                None => rest,
            };
            unquoted(split_on(line, ", "@))
        },
        None => Seq::empty(),
    }
}

/// What the client's report says of the login.
pub open spec fn auth_status_in(output: Seq<char>) -> Result<AuthStatusView, ErrorView> {
    if contains_seq(output, "Logged in to github.com"@) {
        Ok(
            AuthStatusView {
                authenticated: true,
                username: username_in(output),
                scopes: scopes_in(output),
            },
        )
    } else {
        Err(ErrorView::AuthError("Not authenticated with GitHub. Please run 'gh auth login'"@))
    }
}

/// What follows the first `marker` in `text`, if `marker` stands in it.
fn text_after<'a>(text: &'a str, marker: &str) -> (r: Option<&'a str>)
    ensures
        r.deep_view() == after_marker(text@, marker@),
{
    let hay = chars_of(text);
    let needle = chars_of(marker);
    let total = hay.len();
    match find_from(&hay, &needle, 0) {
        Some(i) => Some(text.substring_char(i + needle.len(), total)),
        None => None,
    }
}

/// What stands before the first `marker` in `text`, if `marker` stands in it.
fn text_before<'a>(text: &'a str, marker: &str) -> (r: Option<&'a str>)
    ensures
        r.deep_view() == before_marker(text@, marker@),
{
    let hay = chars_of(text);
    let needle = chars_of(marker);
    match find_from(&hay, &needle, 0) {
        Some(i) => Some(text.substring_char(0, i)),
        None => None,
    }
}

/// The reader of the client's reports.
pub struct GitHubAuth;

impl GitHubAuth {
    /// The name of the account in the client's report.
    pub fn extract_username(output: &str) -> (r: Option<String>)
        ensures
            r.deep_view() == username_in(output@),
    {
        match text_after(output, "account ") {
            Some(rest) => match text_before(rest, " (") {
                Some(name) => Some(owned(name)),
                None => None,
            },
            None => None,
        }
    }

    /// The rights in the client's report.
    pub fn extract_scopes(output: &str) -> (r: Vec<String>)
        ensures
            r.deep_view() == scopes_in(output@),
    {
        match text_after(output, "Token scopes: ") {
            Some(rest) => {
                let line = match text_before(rest, "\n") {
                    Some(l) => l,
                    None => rest,
                };
                let pieces = split(line, ", ");
                let mut r: Vec<String> = Vec::new();
                let mut i: usize = 0;
                while i < pieces.len()
                    invariant
                        i <= pieces.len(),
                        r@.len() == i,
                        forall|j: int| 0 <= j < i ==> r@[j]@ == trim_of(pieces@[j]@, '\''),
                    decreases pieces.len() - i,
                {
                    r.push(trim_char(pieces[i].as_str(), '\''));
                    i = i + 1;
                }
                assert(r.deep_view() =~= unquoted(pieces.deep_view()));
                r
            },
            None => {
                let r: Vec<String> = Vec::new();
                assert(r.deep_view() =~= Seq::<Seq<char>>::empty());
                r
            },
        }
    }

    /// What the client's report says of the login: who is logged in and with
    /// which rights, or that nobody is.
    pub fn parse_auth_status(output: &str) -> (r: Result<AuthStatus, TaskMasterError>)
        ensures
            match auth_status_in(output@) {
                Ok(status) => r is Ok && r->Ok_0@ == status,
                Err(e) => r is Err && r->Err_0@ == e,
            },
    {
        if contains_str(output, "Logged in to github.com") {
            Ok(
                AuthStatus {
                    authenticated: true,
                    username: GitHubAuth::extract_username(output),
                    scopes: GitHubAuth::extract_scopes(output),
                },
            )
        } else {
            Err(
                TaskMasterError::AuthError(
                    owned("Not authenticated with GitHub. Please run 'gh auth login'"),
                ),
            )
        }
    }
}

impl DeepView for AuthStatus {
    type V = AuthStatusView;

    open spec fn deep_view(&self) -> AuthStatusView {
        self@
    }
}

} // verus!
