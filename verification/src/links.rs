//! Recognising a clipboard text that is one web link.
//!
//! A link is a single `http://` or `https://` URL (no white space) whose host is
//! a domain name: dot-separated labels of ASCII letters, digits and inner
//! hyphens, ending in an alphabetic top-level label. Bare domains, and values
//! that only look like URLs (such as tokens with underscores after `https://`),
//! stay text.
use vstd::prelude::*;

use crate::text::{
    all_digits, ascii_lowercase, chars_eq, chars_of, copy_range, find_char, has_prefix,
    index_of, is_white_space, lemma_index_of, lowercase_chars, push_all, split, split_chars,
    starts_with, string_of, char_is_whitespace,
};

verus! {

/// A recognised link.
pub struct LinkInfo {
    pub url: String,
    /// The host in lower case, without a leading `www.`.
    pub domain: String,
    /// The name of the icon shown for the link's site.
    pub icon: String,
}

/// A link as (url, domain, icon).
pub type LinkModel = (Seq<char>, Seq<char>, Seq<char>);

impl View for LinkInfo {
    type V = LinkModel;

    open spec fn view(&self) -> LinkModel {
        (self.url@, self.domain@, self.icon@)
    }
}

/// Whether `t` holds no white space.
pub open spec fn no_white_space(t: Seq<char>) -> bool {
    forall|i: int| 0 <= i < t.len() ==> !is_white_space(#[trigger] t[i])
}

/// The length of a leading `http://` or `https://` (any case), or zero.
pub open spec fn scheme_length(t: Seq<char>) -> int {
    let l = ascii_lowercase(t);
    if has_prefix(l, "https://"@) {
        8
    } else if has_prefix(l, "http://"@) {
        7
    } else {
        0
    }
}

/// Whether `c` ends the authority part of a URL.
pub open spec fn ends_authority(c: char) -> bool {
    c == '/' || c == '?' || c == '#'
}

/// The length of the authority at the start of `s`.
pub open spec fn authority_length(s: Seq<char>) -> int
    decreases s.len(),
{
    if s.len() == 0 || ends_authority(s[0]) {
        0
    } else {
        1 + authority_length(s.drop_first())
    }
}

/// Whether `c` is an ASCII letter.
pub open spec fn is_ascii_letter(c: char) -> bool {
    ('a' <= c && c <= 'z') || ('A' <= c && c <= 'Z')
}

/// Whether `c` may appear in a host label.
pub open spec fn is_label_char(c: char) -> bool {
    is_ascii_letter(c) || ('0' <= c && c <= '9') || c == '-'
}

/// A host label: 1 to 63 letters, digits or hyphens, not starting or ending with a hyphen.
pub open spec fn is_host_label(l: Seq<char>) -> bool {
    &&& 0 < l.len() <= 63
    &&& forall|i: int| 0 <= i < l.len() ==> is_label_char(#[trigger] l[i])
    &&& l[0] != '-'
    &&& l.last() != '-'
}

/// A top-level label: at least two ASCII letters.
pub open spec fn is_top_label(l: Seq<char>) -> bool {
    &&& l.len() >= 2
    &&& forall|i: int| 0 <= i < l.len() ==> is_ascii_letter(#[trigger] l[i])
}

/// A domain name with at least two labels and an alphabetic top-level label.
pub open spec fn is_domain(h: Seq<char>) -> bool {
    let labels = split(h, '.');
    &&& labels.len() >= 2
    &&& forall|i: int| 0 <= i < labels.len() ==> is_host_label(#[trigger] labels[i])
    &&& is_top_label(labels.last())
}

/// The site of a host: its last two labels.
pub open spec fn site_of(domain: Seq<char>) -> Seq<char> {
    let labels = split(domain, '.');
    labels[labels.len() - 2] + seq!['.'] + labels.last()
}

/// The icon name for a site (`youtube`, `github`, ... or `link`).
pub open spec fn icon_for_site(site: Seq<char>) -> Seq<char> {
    if site == "youtube.com"@ || site == "youtu.be"@ {
        "youtube"@
    } else if site == "github.com"@ {
        "github"@
    } else if site == "gitlab.com"@ {
        "gitlab"@
    } else if site == "reddit.com"@ {
        "reddit"@
    } else if site == "wikipedia.org"@ {
        "wikipedia"@
    } else if site == "stackoverflow.com"@ {
        "stackoverflow"@
    } else if site == "twitter.com"@ || site == "x.com"@ {
        "twitter"@
    } else {
        "link"@
    }
}

/// The host part of an authority (before any `:`), in lower case.
pub open spec fn host_of(auth: Seq<char>) -> Seq<char> {
    ascii_lowercase(auth.take(index_of(auth, ':')))
}

/// Whether the port of an authority, if there is one, is one to five digits.
pub open spec fn port_ok(auth: Seq<char>) -> bool {
    let c = index_of(auth, ':');
    c >= auth.len() || ({
        let port = auth.skip(c + 1);
        0 < port.len() <= 5 && all_digits(port)
    })
}

/// The link that the (already trimmed) text `t` is, if it is exactly one web URL.
pub open spec fn single_url(t: Seq<char>) -> Option<LinkModel> {
    let k = scheme_length(t);
    let rest = t.skip(k);
    let auth = rest.take(authority_length(rest));
    let host = host_of(auth);
    let domain = if has_prefix(host, "www."@) {
        host.skip(4)
    } else {
        host
    };
    if !no_white_space(t) || k == 0 || !port_ok(auth) || !is_domain(host) {
        None
    } else {
        Some((t, domain, icon_for_site(site_of(host))))
    }
}

proof fn lemma_authority_length(s: Seq<char>)
    ensures
        0 <= authority_length(s) <= s.len(),
        authority_length(s) < s.len() ==> ends_authority(s[authority_length(s)]),
        forall|j: int| 0 <= j < authority_length(s) ==> !ends_authority(#[trigger] s[j]),
    decreases s.len(),
{
    if s.len() > 0 && !ends_authority(s[0]) {
        lemma_authority_length(s.drop_first());
        assert forall|j: int| 0 <= j < authority_length(s) implies !ends_authority(
            #[trigger] s[j],
        ) by {
            if j > 0 {
                assert(s[j] == s.drop_first()[j - 1]);
            }
        }
    }
}

proof fn lemma_authority_length_unique(s: Seq<char>, i: int)
    requires
        0 <= i <= s.len(),
        i < s.len() ==> ends_authority(s[i]),
        forall|j: int| 0 <= j < i ==> !ends_authority(#[trigger] s[j]),
    ensures
        authority_length(s) == i,
    decreases s.len(),
{
    if s.len() > 0 && !ends_authority(s[0]) {
        assert forall|j: int| 0 <= j < i - 1 implies !ends_authority(
            #[trigger] s.drop_first()[j],
        ) by {
            assert(s.drop_first()[j] == s[j + 1]);
        }
        lemma_authority_length_unique(s.drop_first(), i - 1);
    }
}

fn has_no_white_space(t: &[char]) -> (r: bool)
    ensures
        r == no_white_space(t@),
{
    let mut i: usize = 0;
    while i < t.len()
        invariant
            i <= t@.len(),
            forall|j: int| 0 <= j < i ==> !is_white_space(#[trigger] t@[j]),
        decreases t.len() - i,
    {
        if char_is_whitespace(t[i]) {
            return false;
        }
        i = i + 1;
    }
    true
}

fn label_char(c: char) -> (r: bool)
    ensures
        r == is_label_char(c),
{
    ('a' <= c && c <= 'z') || ('A' <= c && c <= 'Z') || ('0' <= c && c <= '9') || c == '-'
}

fn host_label(l: &[char]) -> (r: bool)
    ensures
        r == is_host_label(l@),
{
    if l.len() == 0 || l.len() > 63 || l[0] == '-' || l[l.len() - 1] == '-' {
        return false;
    }
    let mut i: usize = 0;
    while i < l.len()
        invariant
            i <= l@.len(),
            forall|j: int| 0 <= j < i ==> is_label_char(#[trigger] l@[j]),
        decreases l.len() - i,
    {
        if !label_char(l[i]) {
            return false;
        }
        i = i + 1;
    }
    true
}

fn top_label(l: &[char]) -> (r: bool)
    ensures
        r == is_top_label(l@),
{
    if l.len() < 2 {
        return false;
    }
    let mut i: usize = 0;
    while i < l.len()
        invariant
            i <= l@.len(),
            forall|j: int| 0 <= j < i ==> is_ascii_letter(#[trigger] l@[j]),
        decreases l.len() - i,
    {
        let c = l[i];
        if !(('a' <= c && c <= 'z') || ('A' <= c && c <= 'Z')) {
            return false;
        }
        i = i + 1;
    }
    true
}

#[verifier::loop_isolation(false)]
fn domain_labels_ok(h: &[char]) -> (r: bool)
    ensures
        r == is_domain(h@),
{
    let labels = split_chars(h, '.');
    let ghost ls = split(h@, '.');
    let n = labels.len();
    if n < 2 {
        return false;
    }
    let mut i: usize = 0;
    while i < n
        invariant
            n == labels@.len() == ls.len(),
            forall|k: int| 0 <= k < labels@.len() ==> (#[trigger] labels@[k])@ == ls[k],
            i <= n,
            forall|k: int| 0 <= k < i ==> is_host_label(#[trigger] ls[k]),
        decreases n - i,
    {
        if !host_label(&labels[i]) {
            assert(!is_host_label(ls[i as int]));
            return false;
        }
        i = i + 1;
    }
    top_label(&labels[n - 1])
}

fn icon_name(site: &[char]) -> (r: String)
    ensures
        r@ == icon_for_site(site@),
{
    let name = if chars_eq(site, &chars_of("youtube.com")) || chars_eq(site, &chars_of("youtu.be")) {
        "youtube"
    } else if chars_eq(site, &chars_of("github.com")) {
        "github"
    } else if chars_eq(site, &chars_of("gitlab.com")) {
        "gitlab"
    } else if chars_eq(site, &chars_of("reddit.com")) {
        "reddit"
    } else if chars_eq(site, &chars_of("wikipedia.org")) {
        "wikipedia"
    } else if chars_eq(site, &chars_of("stackoverflow.com")) {
        "stackoverflow"
    } else if chars_eq(site, &chars_of("twitter.com")) || chars_eq(site, &chars_of("x.com")) {
        "twitter"
    } else {
        "link"
    };
    string_of(&chars_of(name))
}

fn site(domain: &[char]) -> (r: Vec<char>)
    requires
        split(domain@, '.').len() >= 2,
    ensures
        r@ == site_of(domain@),
{
    let labels = split_chars(domain, '.');
    let n = labels.len();
    let mut v = copy_range(&labels[n - 2], 0, labels[n - 2].len());
    v.push('.');
    push_all(&mut v, &labels[n - 1]);
    assert(v@ =~= site_of(domain@));
    v
}

/// The link that `text` (already trimmed) is, when it is exactly one `http(s)`
/// URL with a domain-name host.
#[verifier::loop_isolation(false)]
pub fn detect_single_url(text: &str) -> (r: Option<LinkInfo>)
    ensures
        match r {
            Some(l) => single_url(text@) == Some(l@),
            None => single_url(text@) is None,
        },
{
    let t = chars_of(text);
    proof {
        reveal_strlit("https://");
        reveal_strlit("http://");
        reveal_strlit("www.");
    }
    if !has_no_white_space(&t) {
        return None;
    }
    let lower = lowercase_chars(&t);
    assert(lower@.len() == t@.len());
    let k: usize = if starts_with(&lower, &chars_of("https://")) {
        8
    } else if starts_with(&lower, &chars_of("http://")) {
        7
    } else {
        return None;
    };
    let rest = copy_range(&t, k, t.len());
    assert(rest@ =~= t@.skip(k as int));
    let mut a: usize = 0;
    while a < rest.len() && rest[a] != '/' && rest[a] != '?' && rest[a] != '#'
        invariant
            a <= rest@.len(),
            forall|j: int| 0 <= j < a ==> !ends_authority(#[trigger] rest@[j]),
        decreases rest.len() - a,
    {
        a = a + 1;
    }
    proof {
        lemma_authority_length_unique(rest@, a as int);
    }
    let auth = copy_range(&rest, 0, a);
    assert(auth@ =~= rest@.take(a as int));
    proof {
        lemma_index_of(auth@, ':');
    }
    let c = find_char(&auth, ':', 0);
    assert(auth@.skip(0) =~= auth@);
    if c < auth.len() {
        let port = copy_range(&auth, c + 1, auth.len());
        assert(port@ =~= auth@.skip(c + 1));
        if port.len() == 0 || port.len() > 5 {
            return None;
        }
        let mut j: usize = 0;
        while j < port.len()
            invariant
                j <= port@.len(),
                forall|q: int| 0 <= q < j ==> crate::text::is_digit(#[trigger] port@[q]),
            decreases port.len() - j,
        {
            if !('0' <= port[j] && port[j] <= '9') {
                assert(!crate::text::is_digit(port@[j as int]));
                return None;
            }
            j = j + 1;
        }
    }
    let host = lowercase_chars(&copy_range(&auth, 0, c));
    assert(auth@.subrange(0, c as int) =~= auth@.take(c as int));
    if !domain_labels_ok(&host) {
        return None;
    }
    let www = chars_of("www.");
    let domain = if starts_with(&host, &www) {
        copy_range(&host, 4, host.len())
    } else {
        copy_range(&host, 0, host.len())
    };
    proof {
        assert(host@.subrange(0, host@.len() as int) =~= host@);
        if has_prefix(host@, "www."@) {
            assert(host@.subrange(4, host@.len() as int) =~= host@.skip(4));
        }
    }
    let icon = icon_name(&site(&host));
    Some(LinkInfo { url: string_of(&t), domain: string_of(&domain), icon })
}

} // verus!
