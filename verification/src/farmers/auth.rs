//! Signing in.
//!
//! An ordinary Intershop form POST -- `ShopLoginForm_Login`,
//! `ShopLoginForm_Password` and a `SynchronizerToken` scraped from the
//! sign-in page -- answering 302 to `/account` with the session cookie
//! attached. Two requests, in order: the second needs the first's token and
//! its `sid`. Sending them is the caller's; what each answer means is
//! decided here, by [`login_form`] after the page and [`login_outcome`] after
//! the post.

use vstd::prelude::*;
use crate::farmers::endpoints::Endpoints;
use crate::farmers::error::{deny_page, is_deny_page, Error};
use crate::farmers::session::{Session, signed_in};
use crate::ordered::view_pairs;
use crate::text::{chars_of, extend_str, is_whitespace, is_whitespace_exec, opt_str, owned, string_of, trim, trim_exec};

verus! {

/// Narration for the sign-in flow that says nothing.
pub fn no_trace(_step: &str) {
}

/// The pipeline that takes the form.
pub const PROCESS_LOGIN: &'static str = "ViewUserAccount-ProcessLogin";

/// The values of attribute `attr` on the elements of an HTML document that a
/// CSS selector matches, in document order; `None` where an element lacks it.
pub uninterp spec fn document_attr_values(html: Seq<char>, selector: Seq<char>, attr: Seq<char>) -> Seq<Option<Seq<char>>>;

/// The text of each element of an HTML document that a CSS selector matches,
/// in document order: the element's text nodes, concatenated.
pub uninterp spec fn document_texts(html: Seq<char>, selector: Seq<char>) -> Seq<Seq<char>>;

/// Optional strings by their characters.
pub open spec fn opt_strs(v: Seq<Option<String>>) -> Seq<Option<Seq<char>>> {
    v.map_values(|o: Option<String>| opt_str(o))
}

/// Reads an attribute off every element a selector matches.
///
/// Parses the text with `scraper::Html::parse_document`, compiles the
/// selector with `scraper::Selector::parse` (an invalid one matches nothing),
/// and takes `ElementRef::attr` of each match. The result is named
/// [`document_attr_values`] of the three arguments.
#[verifier::external_body]
fn attr_values(html: &str, selector: &str, attr: &str) -> (r: Vec<Option<String>>)
    ensures
        opt_strs(r@) == document_attr_values(html@, selector@, attr@),
{
    let doc = scraper::Html::parse_document(html);
    match scraper::Selector::parse(selector) {
        Ok(s) => doc.select(&s).map(|e| e.attr(attr).map(|v| v.to_string())).collect(),
        Err(_) => Vec::new(),
    }
}

/// Reads the text of every element a selector matches.
///
/// Parses the text with `scraper::Html::parse_document`, compiles the
/// selector with `scraper::Selector::parse` (an invalid one matches nothing),
/// and concatenates `ElementRef::text` of each match. The result is named
/// [`document_texts`] of the two arguments.
#[verifier::external_body]
pub(crate) fn texts(html: &str, selector: &str) -> (r: Vec<String>)
    ensures
        crate::text::strs(r@) == document_texts(html@, selector@),
{
    let doc = scraper::Html::parse_document(html);
    match scraper::Selector::parse(selector) {
        Ok(s) => doc.select(&s).map(|e| e.text().collect::<String>()).collect(),
        Err(_) => Vec::new(),
    }
}

/// The selector for the sign-in form's token field.
pub const TOKEN_FIELD: &'static str = "input[name=\"SynchronizerToken\"]";

/// The selector for the alerts the sign-in page renders back into itself.
pub const ALERTS: &'static str = ".error-message, .alert-danger, .form-error, .login-error";

/// The first element's value, where any element has one.
pub open spec fn first_value(vs: Seq<Option<Seq<char>>>) -> Option<Seq<char>>
    decreases vs.len(),
{
    if vs.len() == 0 {
        None
    } else if vs[0] is Some {
        vs[0]
    } else {
        first_value(vs.drop_first())
    }
}

/// The form token a page carries: the first token field's value, when it is
/// not empty.
pub open spec fn token_of(html: Seq<char>) -> Option<Seq<char>> {
    match first_value(document_attr_values(html, TOKEN_FIELD@, "value"@)) {
        Some(v) => if v.len() > 0 {
            Some(v)
        } else {
            None
        },
        None => None,
    }
}

/// Text with its whitespace runs collapsed to single spaces, reading on from
/// a point where text has `started` and a `gap` is pending.
pub open spec fn tidied_from(s: Seq<char>, started: bool, gap: bool) -> Seq<char>
    decreases s.len(),
{
    if s.len() == 0 {
        Seq::empty()
    } else if is_whitespace(s[0]) {
        tidied_from(s.drop_first(), started, started)
    } else {
        (if gap {
            seq![' ']
        } else {
            Seq::empty()
        }) + seq![s[0]] + tidied_from(s.drop_first(), true, false)
    }
}

/// The words of a text, one space between each.
pub open spec fn tidied(s: Seq<char>) -> Seq<char> {
    tidied_from(s, false, false)
}

/// The first text that is not blank once trimmed.
pub open spec fn first_nonblank(ts: Seq<Seq<char>>) -> Option<Seq<char>>
    decreases ts.len(),
{
    if ts.len() == 0 {
        None
    } else if trim(ts[0]).len() > 0 {
        Some(trim(ts[0]))
    } else {
        first_nonblank(ts.drop_first())
    }
}

/// What the sign-in page said was wrong: the first alert with any text, its
/// whitespace tidied.
pub open spec fn form_error_of(html: Seq<char>) -> Option<Seq<char>> {
    match first_nonblank(document_texts(html, ALERTS@)) {
        Some(t) => Some(tidied(t)),
        None => None,
    }
}

/// The form token the sign-in page mints: an ordinary CSRF nonce, and the
/// POST is refused without it. A page that carries none is not the sign-in
/// page.
pub fn synchronizer_token(html: &str) -> (r: Option<String>)
    ensures
        opt_str(r) == token_of(html@),
{
    let vs = attr_values(html, TOKEN_FIELD, "value");
    let mut i: usize = 0;
    proof {
        assert(opt_strs(vs@).skip(0) =~= opt_strs(vs@));
    }
    while i < vs.len()
        invariant
            i <= vs.len(),
            opt_strs(vs@) == document_attr_values(html@, TOKEN_FIELD@, "value"@),
            first_value(opt_strs(vs@)) == first_value(opt_strs(vs@).skip(i as int)),
        decreases vs.len() - i,
    {
        proof {
            assert(opt_strs(vs@).skip(i as int).drop_first() =~= opt_strs(vs@).skip(i + 1));
            assert(opt_strs(vs@).skip(i as int)[0] == opt_str(vs@[i as int]));
        }
        match &vs[i] {
            Some(v) => {
                let cs = chars_of(v.as_str());
                if cs.len() > 0 {
                    return Some(v.clone());
                }
                return None;
            },
            None => {},
        }
        i += 1;
    }
    None
}

/// Whitespace runs collapsed to single spaces, none at either end.
pub fn tidy(text: &str) -> (r: String)
    ensures
        r@ == tidied(text@),
{
    let cs = chars_of(text);
    let mut out: Vec<char> = Vec::new();
    let mut started = false;
    let mut gap = false;
    let mut i: usize = 0;
    assert(cs@.skip(0) =~= cs@);
    while i < cs.len()
        invariant
            i <= cs.len(),
            cs@ == text@,
            out@ + tidied_from(cs@.skip(i as int), started, gap) == tidied(text@),
        decreases cs.len() - i,
    {
        let c = cs[i];
        proof {
            assert(cs@.skip(i as int).drop_first() =~= cs@.skip(i + 1));
            assert(cs@.skip(i as int)[0] == c);
        }
        if is_whitespace_exec(c) {
            gap = started;
        } else {
            let ghost before = out@;
            if gap {
                out.push(' ');
            }
            out.push(c);
            proof {
                let pre = if gap {
                    seq![' ']
                } else {
                    Seq::empty()
                };
                assert(out@ =~= before + pre + seq![c]);
                assert(before + (pre + seq![c] + tidied_from(cs@.skip(i + 1), true, false))
                    =~= out@ + tidied_from(cs@.skip(i + 1), true, false));
            }
            started = true;
            gap = false;
        }
        i += 1;
    }
    proof {
        assert(cs@.skip(cs.len() as int) =~= Seq::<char>::empty());
        assert(out@ + Seq::<char>::empty() =~= out@);
    }
    string_of(&out)
}

/// What the sign-in page said was wrong, from the alert it renders back into
/// itself.
pub fn form_error(html: &str) -> (r: Option<String>)
    ensures
        opt_str(r) == form_error_of(html@),
{
    let ts = texts(html, ALERTS);
    let mut i: usize = 0;
    proof {
        assert(crate::text::strs(ts@).skip(0) =~= crate::text::strs(ts@));
    }
    while i < ts.len()
        invariant
            i <= ts.len(),
            crate::text::strs(ts@) == document_texts(html@, ALERTS@),
            first_nonblank(crate::text::strs(ts@)) == first_nonblank(
                crate::text::strs(ts@).skip(i as int),
            ),
        decreases ts.len() - i,
    {
        proof {
            assert(crate::text::strs(ts@).skip(i as int).drop_first() =~= crate::text::strs(
                ts@,
            ).skip(i + 1));
            assert(crate::text::strs(ts@).skip(i as int)[0] == ts@[i as int]@);
        }
        let cs = chars_of(ts[i].as_str());
        let t = trim_exec(&cs);
        if t.len() > 0 {
            let s = string_of(&t);
            return Some(tidy(s.as_str()));
        }
        i += 1;
    }
    None
}

/// What a sign-in page that redirected is refused with.
pub open spec fn redirected_detail(target: Seq<char>) -> Seq<char> {
    ": it redirected to "@ + target
        + " rather than serving the form, which means the storefront still counts this session as signed in"@
}

/// What a sign-in page without a token is refused with.
pub open spec fn tokenless_detail() -> Seq<char> {
    ": it carried no SynchronizerToken field, which usually means something other than the sign-in page was served"@
}

/// The form the page's own form posts, in its own order. `login` is the
/// submit button, and Intershop dispatches on it.
pub open spec fn form_of(token: Seq<char>, email: Seq<char>, password: Seq<char>) -> Seq<
    (Seq<char>, Seq<char>),
> {
    seq![
        ("SynchronizerToken"@, token),
        ("ShopLoginForm_Login"@, email),
        ("ShopLoginForm_Password"@, password),
        ("login"@, "Login"@),
    ]
}

/// Two strings from string slices.
fn field(name: &str, value: &str) -> (r: (String, String))
    ensures
        r.0@ == name@,
        r.1@ == value@,
{
    (owned(name), owned(value))
}

/// What to post after the sign-in page answered, or why not to.
///
/// A redirect means the storefront still counts the session as signed in; a
/// deny page is the bot manager; a page with no token is not the sign-in
/// page. Otherwise the four fields, in the page's own order.
pub fn login_form(
    status: u16,
    location: Option<String>,
    body: &str,
    email: &str,
    password: &str,
) -> (r: Result<Vec<(String, String)>, Error>)
    ensures
        300 <= status < 400 ==> (r matches Err(Error::LoginRefused { step, detail }) && step@
            == "sign-in page"@ && detail@ == redirected_detail(
            match location {
                Some(l) => l@,
                None => "somewhere else"@,
            },
        )),
        !(300 <= status < 400) && deny_page(body@) ==> r matches Err(Error::Denied { warmed: false }),
        !(300 <= status < 400) && !deny_page(body@) && token_of(body@) is None ==> (r matches Err(
            Error::LoginRefused { step, detail },
        ) && step@ == "sign-in page"@ && detail@ == tokenless_detail()),
        !(300 <= status < 400) && !deny_page(body@) ==> (token_of(body@) matches Some(t) ==> (
        r matches Ok(form) && view_pairs(form@) == form_of(t, email@, password@))),
{
    if 300 <= status && status < 400 {
        let mut d = chars_of(": it redirected to ");
        match &location {
            Some(l) => extend_str(&mut d, l.as_str()),
            None => extend_str(&mut d, "somewhere else"),
        }
        extend_str(
            &mut d,
            " rather than serving the form, which means the storefront still counts this session as signed in",
        );
        return Err(Error::LoginRefused { step: "sign-in page", detail: string_of(&d) });
    }
    if is_deny_page(body) {
        return Err(Error::Denied { warmed: false });
    }
    let token = match synchronizer_token(body) {
        Some(t) => t,
        None => {
            return Err(
                Error::LoginRefused {
                    step: "sign-in page",
                    detail: owned(
                        ": it carried no SynchronizerToken field, which usually means something other than the sign-in page was served",
                    ),
                },
            );
        },
    };
    let mut form: Vec<(String, String)> = Vec::new();
    form.push(field("SynchronizerToken", token.as_str()));
    form.push(field("ShopLoginForm_Login", email));
    form.push(field("ShopLoginForm_Password", password));
    form.push(field("login", "Login"));
    assert(view_pairs(form@) =~= form_of(token@, email@, password@));
    Ok(form)
}

/// What a refused sign-in without a message is reported with, by the
/// status the form answered.
pub open spec fn no_session_detail(status: u16) -> Seq<char> {
    ", so no signed-in session cookie was set"@ + if status == 200 {
        ". The form answered 200, which is the sign-in page again rather than a redirect"@
    } else if status == 302 {
        ". The form did redirect, but not to a signed-in session"@
    } else {
        Seq::empty()
    }
}

/// What the sign-in came to, once the form's answer has been folded into
/// the session.
///
/// A deny page is the bot manager, after a warm-up. A session that speaks for
/// nobody is a refusal: in the page's own words where it gave some, and
/// otherwise a note of what the form answered. Otherwise the session, filed
/// under the email as typed less its surrounding space.
pub fn login_outcome(status: u16, body: &str, session: Session, email: &str) -> (r: Result<
    Session,
    Error,
>)
    requires
        session.wf(),
    ensures
        deny_page(body@) ==> r matches Err(Error::Denied { warmed: true }),
        !deny_page(body@) && !signed_in(session.jar()) ==> match form_error_of(body@) {
            Some(m) => r matches Err(Error::LoginRefused { step, detail }) && step@ == "password"@
                && detail@ == ": "@ + m,
            None => r matches Err(Error::NoSession { detail }) && detail@ == no_session_detail(
                status,
            ),
        },
        !deny_page(body@) && signed_in(session.jar()) ==> (r matches Ok(s) && s.wf() && s.jar()
            == session.jar() && opt_str(s.filed_email()) == Some(trim(email@))),
{
    if is_deny_page(body) {
        return Err(Error::Denied { warmed: true });
    }
    if !session.account() {
        return Err(
            match form_error(body) {
                Some(message) => {
                    let mut d = chars_of(": ");
                    extend_str(&mut d, message.as_str());
                    Error::LoginRefused { step: "password", detail: string_of(&d) }
                },
                None => {
                    let mut d = chars_of(", so no signed-in session cookie was set");
                    if status == 200 {
                        extend_str(
                            &mut d,
                            ". The form answered 200, which is the sign-in page again rather than a redirect",
                        );
                    } else if status == 302 {
                        extend_str(&mut d, ". The form did redirect, but not to a signed-in session");
                    } else {
                        assert(d@ =~= d@ + Seq::<char>::empty());
                    }
                    Error::NoSession { detail: string_of(&d) }
                },
            },
        );
    }
    let cs = chars_of(email);
    let t = trim_exec(&cs);
    let s = session.with_email(Some(string_of(&t)));
    Ok(s)
}


/// What a browser accepts on a navigation.
pub const NAVIGATION_ACCEPT: &'static str = "text/html,application/xhtml+xml,application/xml;q=0.9,*/*;q=0.8";

/// The headers a browser sends when a person clicks a link or submits a
/// form, in order. A form post is a navigation and has to say so: the
/// storefront serves a different page to a request that did not come from
/// itself. The referer is the page given, else the storefront's origin.
pub open spec fn navigation_pairs(origin: Seq<char>, referer: Option<Seq<char>>) -> Seq<
    (Seq<char>, Seq<char>),
> {
    seq![
        ("origin"@, origin),
        (
            "referer"@,
            match referer {
                Some(r) => r,
                None => origin,
            },
        ),
        ("sec-fetch-dest"@, "document"@),
        ("sec-fetch-mode"@, "navigate"@),
        ("sec-fetch-site"@, "same-origin"@),
        ("sec-fetch-user"@, "?1"@),
        ("accept"@, NAVIGATION_ACCEPT@),
    ]
}

/// The headers of a navigation, by name and value.
pub fn navigation(endpoints: &Endpoints, referer: Option<&str>) -> (r: Vec<(String, String)>)
    ensures
        view_pairs(r@) == navigation_pairs(
            endpoints.origin@,
            match referer {
                Some(x) => Some(x@),
                None => None,
            },
        ),
{
    let mut r: Vec<(String, String)> = Vec::new();
    r.push((owned("origin"), endpoints.origin.clone()));
    let refer = match referer {
        Some(x) => owned(x),
        None => endpoints.origin.clone(),
    };
    r.push((owned("referer"), refer));
    r.push((owned("sec-fetch-dest"), owned("document")));
    r.push((owned("sec-fetch-mode"), owned("navigate")));
    r.push((owned("sec-fetch-site"), owned("same-origin")));
    r.push((owned("sec-fetch-user"), owned("?1")));
    r.push((owned("accept"), owned(NAVIGATION_ACCEPT)));
    assert(view_pairs(r@) =~= navigation_pairs(
        endpoints.origin@,
        match referer {
            Some(x) => Some(x@),
            None => None,
        },
    ));
    r
}

} // verus!
