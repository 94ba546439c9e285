use vstd::prelude::*;

verus! {

/// What `html_escape::decode_html_entities` makes of a text.
pub uninterp spec fn html_entities_decoded(s: Seq<char>) -> Seq<char>;

/// Decodes the HTML character references of `s` with
/// `html_escape::decode_html_entities`. Its result is named; the one fact
/// stated of it is what the crate's source shows: a text without `&` holds no
/// reference and comes back as it is.
#[verifier::external_body]
pub(crate) fn decode_html_entities(s: &str) -> (r: String)
    ensures
        r@ == html_entities_decoded(s@),
        !s@.contains('&') ==> r@ == s@,
{
    html_escape::decode_html_entities(s).to_string()
}

/// Whether `c` is white space as `char::is_whitespace` says: the characters
/// of Unicode's `White_Space` property.
pub open spec fn is_white_space(c: char) -> bool {
    ||| ('\u{9}' <= c && c <= '\u{d}')
    ||| c == ' '
    ||| c == '\u{85}'
    ||| c == '\u{a0}'
    ||| c == '\u{1680}'
    ||| ('\u{2000}' <= c && c <= '\u{200a}')
    ||| c == '\u{2028}'
    ||| c == '\u{2029}'
    ||| c == '\u{202f}'
    ||| c == '\u{205f}'
    ||| c == '\u{3000}'
}

fn white_space(c: char) -> (r: bool)
    ensures
        r == is_white_space(c),
{
    ('\u{9}' <= c && c <= '\u{d}') || c == ' ' || c == '\u{85}' || c == '\u{a0}' || c == '\u{1680}'
        || ('\u{2000}' <= c && c <= '\u{200a}') || c == '\u{2028}' || c == '\u{2029}' || c == '\u{202f}'
        || c == '\u{205f}' || c == '\u{3000}'
}

/// How many white-space characters `s` starts with.
pub open spec fn leading_white(s: Seq<char>) -> nat
    decreases s.len(),
{
    if s.len() == 0 {
        0
    } else if is_white_space(s[0]) {
        1 + leading_white(s.drop_first())
    } else {
        0
    }
}

/// How many white-space characters `s` ends with.
pub open spec fn trailing_white(s: Seq<char>) -> nat
    decreases s.len(),
{
    if s.len() == 0 {
        0
    } else if is_white_space(s.last()) {
        1 + trailing_white(s.drop_last())
    } else {
        0
    }
}

/// `s` without its leading and trailing white space, as `str::trim` gives it.
pub open spec fn trimmed(s: Seq<char>) -> Seq<char> {
    let a = leading_white(s);
    if a == s.len() {
        Seq::empty()
    } else {
        s.subrange(a as int, s.len() - trailing_white(s))
    }
}

proof fn lemma_leading(s: Seq<char>, i: int)
    requires
        0 <= i <= s.len(),
        forall|j: int| 0 <= j < i ==> is_white_space(#[trigger] s[j]),
        i == s.len() || !is_white_space(s[i]),
    ensures
        leading_white(s) == i,
    decreases i,
{
    if i > 0 {
        let t = s.drop_first();
        assert forall|j: int| 0 <= j < i - 1 implies is_white_space(#[trigger] t[j]) by {
            assert(t[j] == s[j + 1]);
        }
        if i - 1 < t.len() {
            assert(t[i - 1] == s[i]);
        }
        lemma_leading(t, i - 1);
    }
}

proof fn lemma_trailing(s: Seq<char>, k: int)
    requires
        0 <= k <= s.len(),
        forall|j: int| s.len() - k <= j < s.len() ==> is_white_space(#[trigger] s[j]),
        k == s.len() || !is_white_space(s[s.len() - k - 1]),
    ensures
        trailing_white(s) == k,
    decreases k,
{
    if k > 0 {
        let t = s.drop_last();
        assert(is_white_space(s[s.len() - 1]));
        assert forall|j: int| t.len() - (k - 1) <= j < t.len() implies is_white_space(#[trigger] t[j]) by {
            assert(t[j] == s[j]);
        }
        if k - 1 < t.len() {
            assert(t[t.len() - (k - 1) - 1] == s[s.len() - k - 1]);
        }
        lemma_trailing(t, k - 1);
    }
}

/// `s` without its leading and trailing white space.
pub fn trim(s: &str) -> (r: String)
    ensures
        r@ == trimmed(s@),
{
    let n = s.unicode_len();
    let mut a: usize = 0;
    while a < n && white_space(s.get_char(a))
        invariant
            a <= n,
            n == s@.len(),
            forall|j: int| 0 <= j < a ==> is_white_space(#[trigger] s@[j]),
        decreases n - a,
    {
        a = a + 1;
    }
    proof { lemma_leading(s@, a as int); }
    if a == n {
        return String::new();
    }
    let mut b: usize = n;
    while b > a && white_space(s.get_char(b - 1))
        invariant
            a < n,
            a <= b <= n,
            n == s@.len(),
            !is_white_space(s@[a as int]),
            forall|j: int| b <= j < n ==> is_white_space(#[trigger] s@[j]),
        decreases b,
    {
        b = b - 1;
    }
    proof {
        assert(b > a);
        lemma_trailing(s@, n - b);
    }
    String::from_str(s.substring_char(a, b))
}

/// `s` with each occurrence of `from` replaced by `to`, as `str::replace`
/// finds them: left to right, without overlap; an empty `from` occurs before
/// each character and at the end.
pub open spec fn replaced(s: Seq<char>, from: Seq<char>, to: Seq<char>) -> Seq<char>
    decreases s.len(),
{
    if from.len() == 0 {
        if s.len() == 0 {
            to
        } else {
            to + seq![s[0]] + replaced(s.drop_first(), from, to)
        }
    } else if s.len() < from.len() {
        s
    } else if s.take(from.len() as int) == from {
        to + replaced(s.skip(from.len() as int), from, to)
    } else {
        seq![s[0]] + replaced(s.drop_first(), from, to)
    }
}

fn chars_of(s: &str) -> (r: Vec<char>)
    ensures
        r@ == s@,
{
    let n = s.unicode_len();
    let mut r: Vec<char> = Vec::new();
    let mut i: usize = 0;
    while i < n
        invariant
            i <= n,
            n == s@.len(),
            r@ == s@.take(i as int),
        decreases n - i,
    {
        r.push(s.get_char(i));
        proof { assert(r@ =~= s@.take(i + 1)); }
        i = i + 1;
    }
    proof { assert(r@ =~= s@); }
    r
}

fn occurs_at(cs: &Vec<char>, i: usize, fs: &Vec<char>) -> (r: bool)
    requires
        i + fs@.len() <= cs@.len(),
    ensures
        r == (cs@.subrange(i as int, i + fs@.len()) == fs@),
{
    let cl = cs.len();
    let mut k: usize = 0;
    while k < fs.len()
        invariant
            k <= fs@.len(),
            cl == cs@.len(),
            i + fs@.len() <= cs@.len(),
            forall|j: int| 0 <= j < k ==> cs@[i + j] == fs@[j],
        decreases fs@.len() - k,
    {
        if cs[i + k] != fs[k] {
            assert(cs@.subrange(i as int, i + fs@.len())[k as int] != fs@[k as int]);
            return false;
        }
        k = k + 1;
    }
    assert(cs@.subrange(i as int, i + fs@.len()) =~= fs@);
    true
}

/// Whether `t` occurs in `s`.
pub open spec fn contains_text(s: Seq<char>, t: Seq<char>) -> bool {
    exists|i: int| 0 <= i && i + t.len() <= s.len() && #[trigger] s.subrange(i, i + t.len()) == t
}

/// Whether `t` occurs in `s`, as `s.contains(t)` tells.
pub fn contains(s: &str, t: &str) -> (r: bool)
    ensures
        r == contains_text(s@, t@),
{
    let cs = chars_of(s);
    let ts = chars_of(t);
    if ts.len() > cs.len() {
        return false;
    }
    let last = cs.len() - ts.len();
    let mut i: usize = 0;
    loop
        invariant
            cs@ == s@,
            ts@ == t@,
            last + ts@.len() == cs@.len(),
            i <= last,
            forall|j: int| 0 <= j < i ==> #[trigger] cs@.subrange(j, j + ts@.len()) != ts@,
        decreases last - i,
    {
        if occurs_at(&cs, i, &ts) {
            assert(s@.subrange(i as int, i + t@.len()) == t@);
            return true;
        }
        if i == last {
            proof {
                assert forall|j: int| 0 <= j && j + t@.len() <= s@.len() implies #[trigger] s@.subrange(j, j + t@.len()) != t@ by {
                    assert(j <= i);
                }
            }
            return false;
        }
        i = i + 1;
    }
}

proof fn lemma_replaced_step(s: Seq<char>, i: int, from: Seq<char>, to: Seq<char>)
    requires
        from.len() > 0,
        0 <= i,
        i + from.len() <= s.len(),
    ensures
        s.subrange(i, i + from.len()) == from ==> replaced(s.skip(i), from, to) == to + replaced(s.skip(i + from.len()), from, to),
        s.subrange(i, i + from.len()) != from ==> replaced(s.skip(i), from, to) == seq![s[i]] + replaced(s.skip(i + 1), from, to),
{
    let t = s.skip(i);
    assert(t.take(from.len() as int) =~= s.subrange(i, i + from.len()));
    assert(t.skip(from.len() as int) =~= s.skip(i + from.len()));
    assert(t.drop_first() =~= s.skip(i + 1));
    assert(t[0] == s[i]);
}

/// `s` with each occurrence of `from` replaced by `to`.
pub fn replace(s: &str, from: &str, to: &str) -> (r: String)
    ensures
        r@ == replaced(s@, from@, to@),
{
    let cs = chars_of(s);
    let fs = chars_of(from);
    let n = cs.len();
    let m = fs.len();
    let mut r = String::new();
    proof {
        assert(s@.skip(0) =~= s@);
        assert(r@ + replaced(s@, from@, to@) =~= replaced(s@, from@, to@));
    }
    if m == 0 {
        let mut i: usize = 0;
        while i < n
            invariant
                i <= n,
                n == s@.len(),
                from@.len() == 0,
                r@ + replaced(s@.skip(i as int), from@, to@) == replaced(s@, from@, to@),
            decreases n - i,
        {
            proof {
                let t = s@.skip(i as int);
                assert(t.drop_first() =~= s@.skip(i + 1));
                assert(t[0] == s@[i as int]);
            }
            r.append(to);
            r.append(s.substring_char(i, i + 1));
            proof {
                assert(s@.subrange(i as int, i + 1) =~= seq![s@[i as int]]);
            }
            i = i + 1;
        }
        r.append(to);
        proof {
            assert(s@.skip(n as int) =~= Seq::<char>::empty());
        }
        return r;
    }
    let mut i: usize = 0;
    let mut run: usize = 0;
    proof { assert(s@.skip(0) =~= s@); }
    while m <= n && i <= n - m
        invariant
            run <= i <= n,
            n == s@.len(),
            m == from@.len(),
            m > 0,
            cs@ == s@,
            fs@ == from@,
            r@ + s@.subrange(run as int, i as int) + replaced(s@.skip(i as int), from@, to@) == replaced(s@, from@, to@),
        decreases n - i,
    {
        proof { lemma_replaced_step(s@, i as int, from@, to@); }
        if occurs_at(&cs, i, &fs) {
            let ghost before = r@;
            r.append(s.substring_char(run, i));
            r.append(to);
            i = i + m;
            run = i;
            proof {
                assert(s@.subrange(run as int, i as int) =~= Seq::<char>::empty());
            }
        } else {
            proof {
                assert(s@.subrange(run as int, i + 1) =~= s@.subrange(run as int, i as int) + seq![s@[i as int]]);
            }
            i = i + 1;
        }
    }
    proof {
        let t = s@.skip(i as int);
        assert(t.len() < m);
        assert(replaced(t, from@, to@) == t);
        assert(s@.subrange(run as int, i as int) + t =~= s@.subrange(run as int, n as int));
    }
    r.append(s.substring_char(run, n));
    r
}

/// `s` after replacing, in order, each `(from, to)` of `pairs`.
pub open spec fn replaced_all(s: Seq<char>, pairs: Seq<(Seq<char>, Seq<char>)>) -> Seq<char>
    decreases pairs.len(),
{
    if pairs.len() == 0 {
        s
    } else {
        let t = replaced_all(s, pairs.drop_last());
        replaced(t, pairs.last().0, pairs.last().1)
    }
}

/// The links of a tweet's text: the short address, and the address shown.
pub struct TextUrl {
    pub url: String,
    pub display_url: String,
}

/// The view of a tweet's media addresses, each to be removed.
pub open spec fn removals(media_urls: Seq<String>) -> Seq<(Seq<char>, Seq<char>)> {
    media_urls.map_values(|u: String| (u@, Seq::<char>::empty()))
}

/// The view of a tweet's links, each short address to show as its display form.
pub open spec fn link_replacements(urls: Seq<TextUrl>) -> Seq<(Seq<char>, Seq<char>)> {
    urls.map_values(|u: TextUrl| (u.url@, u.display_url@))
}

/// A decoded text with the media addresses removed.
pub open spec fn without_media(decoded: Seq<char>, media_urls: Seq<String>) -> Seq<char> {
    replaced_all(decoded, removals(media_urls))
}

/// A decoded text as a tweet shows it: media addresses removed, links shown
/// in their display form, white space trimmed.
pub open spec fn shown_text(decoded: Seq<char>, media_urls: Seq<String>, urls: Seq<TextUrl>) -> Seq<char> {
    trimmed(replaced_all(without_media(decoded, media_urls), link_replacements(urls)))
}

/// The text of a tweet before its links are shown: entities decoded, media
/// addresses removed.
pub open spec fn stripped_text(original: Seq<char>, media_urls: Seq<String>) -> Seq<char> {
    without_media(html_entities_decoded(original), media_urls)
}

/// The text a tweet shows: entities decoded, media addresses removed, links
/// shown in their display form, white space trimmed.
pub open spec fn tweet_text(original: Seq<char>, media_urls: Seq<String>, urls: Seq<TextUrl>) -> Seq<char> {
    shown_text(html_entities_decoded(original), media_urls, urls)
}

/// The text a tweet shows, from its text, the addresses of its media, and its
/// links; also the text before its links are shown, which the rich text cuts.
pub fn parse_text(original: &str, media_urls: &Vec<String>, urls: &Vec<TextUrl>) -> (r: (String, String))
    ensures
        r.0@ == tweet_text(original@, media_urls@, urls@),
        r.1@ == stripped_text(original@, media_urls@),
{
    let decoded = decode_html_entities(original);
    clean_text(decoded.as_str(), media_urls, urls)
}

/// What follows the decoding of a tweet's text: the text it shows, from the
/// decoded text, the addresses of its media and its links; also the text
/// with only the media addresses removed.
pub fn clean_text(decoded: &str, media_urls: &Vec<String>, urls: &Vec<TextUrl>) -> (r: (String, String))
    ensures
        r.0@ == shown_text(decoded@, media_urls@, urls@),
        r.1@ == without_media(decoded@, media_urls@),
{
    let mut trimmed_text = String::from_str(decoded);
    let mut i: usize = 0;
    while i < media_urls.len()
        invariant
            i <= media_urls@.len(),
            trimmed_text@ == replaced_all(decoded@, removals(media_urls@).take(i as int)),
        decreases media_urls@.len() - i,
    {
        proof {
            let p = removals(media_urls@);
            assert(p.take(i + 1).drop_last() =~= p.take(i as int));
            assert(p.take(i + 1).last() == (media_urls@[i as int]@, Seq::<char>::empty()));
        }
        proof {
            reveal_strlit("");
            assert(""@ =~= Seq::<char>::empty());
        }
        trimmed_text = replace(trimmed_text.as_str(), media_urls[i].as_str(), "");
        i = i + 1;
    }
    proof { assert(removals(media_urls@).take(i as int) =~= removals(media_urls@)); }
    let mut final_text = trimmed_text.clone();
    let mut j: usize = 0;
    while j < urls.len()
        invariant
            j <= urls@.len(),
            final_text@ == replaced_all(trimmed_text@, link_replacements(urls@).take(j as int)),
        decreases urls@.len() - j,
    {
        proof {
            let p = link_replacements(urls@);
            assert(p.take(j + 1).drop_last() =~= p.take(j as int));
            assert(p.take(j + 1).last() == (urls@[j as int].url@, urls@[j as int].display_url@));
        }
        final_text = replace(final_text.as_str(), urls[j].url.as_str(), urls[j].display_url.as_str());
        j = j + 1;
    }
    proof { assert(link_replacements(urls@).take(j as int) =~= link_replacements(urls@)); }
    let shown = trim(final_text.as_str());
    (shown, trimmed_text)
}

}
