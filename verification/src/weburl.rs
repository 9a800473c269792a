//! URLs as plain records.
//!
//! Parsing and resolving are done by the `url` crate; what it finds is kept as
//! the components that the crawler's rules read, and the text of a URL is put
//! together from them again.

use url::{Position, Url as ParsedUrl};
use vstd::prelude::*;
use vstd::string::StringExecFns;

use crate::text::{self, copy_opt, to_decimal};

verus! {

/// A parsed URL, component by component, each as it stands in the URL's text.
#[derive(Debug)]
pub struct Url {
    /// The scheme, without its colon.
    pub scheme: String,
    /// Whether `//` and an authority follow the scheme.
    pub authority: bool,
    /// The user name; empty where there is none.
    pub username: String,
    /// The password, if there is one.
    pub password: Option<String>,
    /// The host, if there is one.
    pub host: Option<String>,
    /// The port, where it is not the default of the scheme.
    pub port: Option<u16>,
    /// What stands between the authority and the path: `/.` before a path that
    /// would otherwise read as an authority, and nothing elsewhere.
    pub lead: String,
    /// The path.
    pub path: String,
    /// The query, without its question mark.
    pub query: Option<String>,
    /// The fragment, without its hash.
    pub fragment: Option<String>,
}

/// The components of a [`Url`].
pub struct UrlView {
    pub scheme: Seq<char>,
    pub authority: bool,
    pub username: Seq<char>,
    pub password: Option<Seq<char>>,
    pub host: Option<Seq<char>>,
    pub port: Option<u16>,
    pub lead: Seq<char>,
    pub path: Seq<char>,
    pub query: Option<Seq<char>>,
    pub fragment: Option<Seq<char>>,
}

impl View for Url {
    type V = UrlView;

    open spec fn view(&self) -> UrlView {
        UrlView {
            scheme: self.scheme@,
            authority: self.authority,
            username: self.username@,
            password: text::opt_view(self.password),
            host: text::opt_view(self.host),
            port: self.port,
            lead: self.lead@,
            path: self.path@,
            query: text::opt_view(self.query),
            fragment: text::opt_view(self.fragment),
        }
    }
}

/// `mark` and `part`, where there is a part.
pub open spec fn marked(mark: char, part: Option<Seq<char>>) -> Seq<char> {
    match part {
        Some(p) => seq![mark] + p,
        None => Seq::empty(),
    }
}

impl UrlView {
    /// User name and password, with the marks that set them off.
    pub open spec fn userinfo(self) -> Seq<char> {
        if self.username.len() == 0 && self.password is None {
            Seq::empty()
        } else {
            self.username + marked(':', self.password) + seq!['@']
        }
    }

    /// The authority with its leading `//`; empty where there is none.
    pub open spec fn authority_text(self) -> Seq<char> {
        if self.authority {
            seq!['/', '/'] + self.userinfo() + (match self.host {
                Some(h) => h,
                None => Seq::empty(),
            }) + (match self.port {
                Some(p) => seq![':'] + text::decimal(p as nat),
                None => Seq::empty(),
            })
        } else {
            Seq::empty()
        }
    }

    /// The URL as text.
    pub open spec fn text(self) -> Seq<char> {
        self.scheme + seq![':'] + self.authority_text() + self.lead + self.path + marked(
            '?',
            self.query,
        ) + marked('#', self.fragment)
    }

    /// Whether the scheme is `http` or `https`.
    pub open spec fn is_web(self) -> bool {
        self.scheme == "http"@ || self.scheme == "https"@
    }

    /// What every URL that was parsed satisfies: an `http` or `https` URL has an
    /// authority, with a host that is not empty and holds no capital letters.
    pub open spec fn wf(self) -> bool {
        self.is_web() ==> {
            &&& self.authority
            &&& self.host is Some
            &&& self.host->0.len() > 0
            &&& text::lowered(self.host->0) == self.host->0
        }
    }

    /// Whether nothing but an unstructured path follows the scheme, as in
    /// `mailto:` and `data:` URLs.
    pub open spec fn is_opaque(self) -> bool {
        &&& !self.authority
        &&& self.lead.len() == 0
        &&& !(self.path.len() > 0 && self.path[0] == '/')
    }

    /// The port the URL names, or else the one its scheme is known to use.
    pub open spec fn known_port(self) -> Option<u16> {
        if self.port is Some {
            self.port
        } else if self.scheme == "http"@ || self.scheme == "ws"@ {
            Some(80u16)
        } else if self.scheme == "https"@ || self.scheme == "wss"@ {
            Some(443u16)
        } else if self.scheme == "ftp"@ {
            Some(21u16)
        } else {
            None
        }
    }

    /// An unstructured path at the very end of a URL does not end in spaces.
    pub open spec fn tidied(self) -> UrlView {
        if self.is_opaque() && self.query is None && self.fragment is None {
            UrlView { path: without_trailing_blanks(self.path), ..self }
        } else {
            self
        }
    }

    /// The URL without its fragment.
    pub open spec fn without_fragment(self) -> UrlView {
        UrlView { fragment: None, ..self }.tidied()
    }

    /// The URL without its query.
    pub open spec fn without_query(self) -> UrlView {
        UrlView { query: None, ..self }.tidied()
    }

    /// The URL with the path `/`, which an unstructured path spells `%2F`.
    pub open spec fn at_root(self) -> UrlView {
        UrlView {
            path: if self.is_opaque() {
                seq!['%', '2', 'F']
            } else {
                seq!['/']
            },
            ..self
        }
    }

    /// The URL without its port, which only a URL with a host other than a
    /// `file` URL has.
    pub open spec fn without_port(self) -> UrlView {
        match self.host {
            Some(h) => if h.len() > 0 && self.scheme != "file"@ {
                UrlView { port: None, ..self }
            } else {
                self
            },
            None => self,
        }
    }
}

/// `s` without the spaces at its end.
pub open spec fn without_trailing_blanks(s: Seq<char>) -> Seq<char>
    decreases s.len(),
{
    if s.len() > 0 && s.last() == ' ' {
        without_trailing_blanks(s.drop_last())
    } else {
        s
    }
}

/// What the `url` crate makes of `input`, read against the URL text `base` if
/// there is one: the components, or the message of the error.
pub uninterp spec fn url_resolved(base: Option<Seq<char>>, input: Seq<char>) -> Result<
    UrlView,
    Seq<char>,
>;

/// The result of reading a URL, by its view.
pub open spec fn resolution(r: Result<Url, String>) -> Result<UrlView, Seq<char>> {
    match r {
        Ok(u) => Ok(u@),
        Err(message) => Err(message@),
    }
}

/// `url::Url::options().base_url(base).parse(input)`, which is `Url::parse`
/// without a base and `Url::join` with one. The base is given as text and
/// parsed first. Claimed: the outcome depends on the two texts alone (it is
/// named `url_resolved`), and an `http` or `https` URL has an authority with a
/// host that is not empty and holds no capital letters.
#[verifier::external_body]
fn resolve(base: Option<&str>, input: &str) -> (r: Result<Url, String>)
    ensures
        resolution(r) == url_resolved(
            match base {
                Some(b) => Some(b@),
                None => None,
            },
            input@,
        ),
        r matches Ok(u) ==> u@.wf(),
{
    let base = base.map(ParsedUrl::parse).transpose().map_err(|e| e.to_string())?;
    let u = ParsedUrl::options().base_url(base.as_ref()).parse(input).map_err(|e| e.to_string())?;
    Ok(Url {
        scheme: u.scheme().to_owned(),
        authority: u.has_authority(),
        username: u.username().to_owned(),
        password: u.password().map(str::to_owned),
        host: u.host_str().map(str::to_owned),
        port: u.port(),
        lead: u[Position::AfterPort..Position::BeforePath].to_owned(),
        path: u.path().to_owned(),
        query: u.query().map(str::to_owned),
        fragment: u.fragment().map(str::to_owned),
    })
}

impl Url {
    /// Parse an absolute URL; the error is the parser's message.
    pub fn parse(input: &str) -> (r: Result<Url, String>)
        ensures
            resolution(r) == url_resolved(None, input@),
            r matches Ok(u) ==> u@.wf(),
    {
        resolve(None, input)
    }

    /// Resolve `reference` against this URL; the error is the parser's message.
    pub fn join(&self, reference: &str) -> (r: Result<Url, String>)
        ensures
            resolution(r) == url_resolved(Some(self@.text()), reference@),
            r matches Ok(u) ==> u@.wf(),
    {
        let base = self.text();
        resolve(Some(base.as_str()), reference)
    }

    /// The URL as text.
    pub fn text(&self) -> (r: String)
        ensures
            r@ == self@.text(),
    {
        let mut out: String = self.scheme.clone();
        out.push(':');
        if self.authority {
            out.push('/');
            out.push('/');
            if !(self.username.as_str().is_empty() && self.password.is_none()) {
                out.append(self.username.as_str());
                match &self.password {
                    Some(p) => {
                        out.push(':');
                        out.append(p.as_str());
                    },
                    None => {},
                }
                out.push('@');
            }
            match &self.host {
                Some(h) => {
                    out.append(h.as_str());
                },
                None => {},
            }
            match self.port {
                Some(p) => {
                    out.push(':');
                    let digits = to_decimal(p as u64);
                    out.append(digits.as_str());
                },
                None => {},
            }
            proof {
                assert(out@ =~= self@.scheme + seq![':'] + self@.authority_text());
            }
        }
        proof {
            assert(out@ =~= self@.scheme + seq![':'] + self@.authority_text());
        }
        out.append(self.lead.as_str());
        out.append(self.path.as_str());
        match &self.query {
            Some(q) => {
                out.push('?');
                out.append(q.as_str());
            },
            None => {},
        }
        match &self.fragment {
            Some(f) => {
                out.push('#');
                out.append(f.as_str());
            },
            None => {},
        }
        proof {
            assert(out@ =~= self@.text());
        }
        out
    }

    /// A copy of this URL.
    pub fn copy(&self) -> (r: Url)
        ensures
            r@ == self@,
    {
        Url {
            scheme: self.scheme.clone(),
            authority: self.authority,
            username: self.username.clone(),
            password: copy_opt(&self.password),
            host: copy_opt(&self.host),
            port: self.port,
            lead: self.lead.clone(),
            path: self.path.clone(),
            query: copy_opt(&self.query),
            fragment: copy_opt(&self.fragment),
        }
    }
}

/// A URL's text is its parts in order: with a host, `scheme://`, the user if
/// there is one, the host, the port if there is one, then path, query and
/// fragment behind their marks.
pub proof fn text_is_the_parts_in_order(u: UrlView, h: Seq<char>)
    requires
        u.authority,
        u.host == Some(h),
    ensures
        ({
            let user = if u.username == Seq::<char>::empty() && u.password is None {
                Seq::empty()
            } else {
                match u.password {
                    Some(p) => u.username + ":"@ + p + "@"@,
                    None => u.username + "@"@,
                }
            };
            let port = match u.port {
                Some(p) => ":"@ + text::decimal(p as nat),
                None => Seq::empty(),
            };
            let query = match u.query {
                Some(q) => "?"@ + q,
                None => Seq::empty(),
            };
            let fragment = match u.fragment {
                Some(f) => "#"@ + f,
                None => Seq::empty(),
            };
            u.text() == u.scheme + "://"@ + user + h + port + u.lead + u.path + query + fragment
        }),
{
    reveal_strlit("://");
    reveal_strlit(":");
    reveal_strlit("@");
    reveal_strlit("?");
    reveal_strlit("#");
    let none = Seq::<char>::empty();
    assert(u.username.len() == 0 ==> u.username =~= none);
    let user = if u.username == none && u.password is None {
        none
    } else {
        match u.password {
            Some(p) => u.username + ":"@ + p + "@"@,
            None => u.username + "@"@,
        }
    };
    assert(u.userinfo() =~= user);
    let port = match u.port {
        Some(p) => ":"@ + text::decimal(p as nat),
        None => none,
    };
    let query = match u.query {
        Some(q) => "?"@ + q,
        None => none,
    };
    let fragment = match u.fragment {
        Some(f) => "#"@ + f,
        None => none,
    };
    assert(marked('?', u.query) =~= query);
    assert(marked('#', u.fragment) =~= fragment);
    assert(u.text() =~= u.scheme + "://"@ + user + h + port + u.lead + u.path + query + fragment);
}

/// Without an authority, the path follows the scheme's colon.
pub proof fn opaque_text_is_the_parts_in_order(u: UrlView)
    requires
        !u.authority,
    ensures
        u.query is None && u.fragment is None ==> u.text() == u.scheme + ":"@ + u.lead + u.path,
{
    reveal_strlit(":");
    if u.query is None && u.fragment is None {
        assert(u.text() =~= u.scheme + ":"@ + u.lead + u.path);
    }
}

/// The web is `http` and `https`, and a port that is not spelled out is the
/// customary one of the scheme.
pub proof fn schemes_have_their_ports(u: UrlView)
    ensures
        u.is_web() <==> (u.scheme == "http"@ || u.scheme == "https"@),
        u.port is Some ==> u.known_port() == u.port,
        u.port is None && u.scheme == "http"@ ==> u.known_port() == Some(80u16),
        u.port is None && u.scheme == "https"@ ==> u.known_port() == Some(443u16),
        u.port is None && u.scheme == "ws"@ ==> u.known_port() == Some(80u16),
        u.port is None && u.scheme == "wss"@ ==> u.known_port() == Some(443u16),
        u.port is None && u.scheme == "ftp"@ ==> u.known_port() == Some(21u16),
        u.port is None && u.known_port() is Some ==> u.scheme == "http"@ || u.scheme == "https"@
            || u.scheme == "ws"@ || u.scheme == "wss"@ || u.scheme == "ftp"@,
{
    reveal_strlit("http");
    reveal_strlit("https");
    reveal_strlit("ws");
    reveal_strlit("wss");
    reveal_strlit("ftp");
    assert("http"@.len() == 4 && "https"@.len() == 5 && "ws"@.len() == 2);
    assert("wss"@.len() == 3 && "ftp"@.len() == 3 && "wss"@[0] == 'w' && "ftp"@[0] == 'f');
}

/// Dropping a part of a URL with an authority drops that part alone.
pub proof fn parts_are_dropped_alone(u: UrlView)
    requires
        u.authority,
    ensures
        u.without_fragment() == (UrlView { fragment: None, ..u }),
        u.without_query() == (UrlView { query: None, ..u }),
        u.at_root() == (UrlView { path: "/"@, ..u }),
{
    reveal_strlit("/");
    assert("/"@ =~= seq!['/']);
}

/// A port is dropped alone, and only from a URL with a host that is not empty
/// and not of the `file` scheme; an unstructured path that comes to stand at the
/// end of its URL loses the spaces behind it.
pub proof fn ports_and_blanks_are_dropped(u: UrlView, h: Seq<char>)
    ensures
        u.host == Some(h) && h.len() > 0 && u.scheme != "file"@ ==> u.without_port() == (UrlView {
            port: None,
            ..u
        }),
        u.host is None ==> u.without_port() == u,
        u.scheme == "file"@ ==> u.without_port() == u,
        !u.authority && u.lead.len() == 0 && u.path.len() > 0 && u.path[0] != '/' && u.query is None
            ==> u.without_fragment() == (UrlView {
            fragment: None,
            path: without_trailing_blanks(u.path),
            ..u
        }),
        u.path.len() > 0 && u.path[0] == '/' ==> u.without_fragment() == (UrlView {
            fragment: None,
            ..u
        }),
{
}

/// Spaces are dropped at the end, and there alone.
pub proof fn only_trailing_blanks_are_dropped(s: Seq<char>)
    ensures
        without_trailing_blanks(s).len() <= s.len(),
        without_trailing_blanks(s) == s.take(without_trailing_blanks(s).len() as int),
        without_trailing_blanks(s).len() > 0 ==> without_trailing_blanks(s).last() != ' ',
        forall|i: int| without_trailing_blanks(s).len() <= i < s.len() ==> #[trigger] s[i] == ' ',
    decreases s.len(),
{
    if s.len() > 0 && s.last() == ' ' {
        only_trailing_blanks_are_dropped(s.drop_last());
        let t = without_trailing_blanks(s);
        assert(s.drop_last().take(t.len() as int) =~= s.take(t.len() as int));
        assert forall|i: int| t.len() <= i < s.len() implies #[trigger] s[i] == ' ' by {
            if i < s.len() - 1 {
                assert(s.drop_last()[i] == s[i]);
            }
        }
    } else {
        assert(s.take(s.len() as int) =~= s);
    }
}

/// A URL is a web URL exactly where its scheme is `http` or `https`, and one is
/// well-formed where it has an authority and a host in lower case.
pub proof fn web_urls_go_by_scheme(u: UrlView)
    ensures
        u.is_web() <==> u.scheme == "http"@ || u.scheme == "https"@,
        u.is_web() && u.wf() ==> u.authority && (u.host matches Some(h) && h.len() > 0
            && text::lowered(h) == h),
        !u.is_web() ==> u.wf(),
        u.is_opaque() <==> !u.authority && u.lead.len() == 0 && (u.path.len() == 0 || u.path[0]
            != '/'),
{
}

/// A URL shows its parts as they stand in it.
pub proof fn urls_show_their_parts(u: Url)
    ensures
        u@.scheme == u.scheme@,
        u@.authority == u.authority,
        u@.username == u.username@,
        u@.password == text::opt_view(u.password),
        u@.host == text::opt_view(u.host),
        u@.port == u.port,
        u@.lead == u.lead@,
        u@.path == u.path@,
        u@.query == text::opt_view(u.query),
        u@.fragment == text::opt_view(u.fragment),
{
}

} // verus!
