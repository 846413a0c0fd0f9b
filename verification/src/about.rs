use vstd::prelude::*;

use crate::text::matches_at;
use crate::updater::{release_page_url, spec_release_page_url};

verus! {

/// The UTF-16 code units of one character: one unit inside the Basic
/// Multilingual Plane, a surrogate pair outside it.
pub open spec fn utf16_of_char(c: char) -> Seq<u16> {
    let v = c as u32;
    if v < 0x10000 {
        seq![v as u16]
    } else {
        let u = v - 0x10000;
        seq![(0xD800 + u / 0x400) as u16, (0xDC00 + u % 0x400) as u16]
    }
}

/// The UTF-16 encoding of `s`.
pub open spec fn utf16_of(s: Seq<char>) -> Seq<u16>
    decreases s.len(),
{
    if s.len() == 0 {
        Seq::empty()
    } else {
        utf16_of(s.drop_last()) + utf16_of_char(s.last())
    }
}

/// `s` encoded as UTF-16, followed by a terminating zero unit.
pub fn null_terminated_utf16(s: &str) -> (r: Vec<u16>)
    ensures
        r@ == utf16_of(s@).push(0u16),
        r@.len() > 0,
        r@.last() == 0u16,
        (forall|i: int| 0 <= i < s@.len() ==> (#[trigger] s@[i] as u32) < 0x10000) ==> r@.len() == s@.len() + 1,
        (forall|i: int| 0 <= i < s@.len() ==> (#[trigger] s@[i] as u32) != 0) ==> forall|i: int|
            0 <= i < r@.len() - 1 ==> #[trigger] r@[i] != 0u16,
{
    let mut r: Vec<u16> = Vec::new();
    let ghost all_bmp = forall|i: int| 0 <= i < s@.len() ==> (#[trigger] s@[i] as u32) < 0x10000;
    let ghost no_nul = forall|i: int| 0 <= i < s@.len() ==> (#[trigger] s@[i] as u32) != 0;
    for c in it: s.chars()
        invariant
            it.seq() == s@,
            r@ == utf16_of(s@.take(it.index() as int)),
            all_bmp == (forall|i: int| 0 <= i < s@.len() ==> (#[trigger] s@[i] as u32) < 0x10000),
            no_nul == (forall|i: int| 0 <= i < s@.len() ==> (#[trigger] s@[i] as u32) != 0),
            all_bmp ==> r@.len() == it.index(),
            no_nul ==> forall|j: int| 0 <= j < r@.len() ==> #[trigger] r@[j] != 0u16,
    {
        let ghost k = it.index() as int;
        let ghost before = r@;
        let v = c as u32;
        proof {
            vstd::utf8::char_is_scalar(c);
        }
        assert(v <= 0x10FFFF);
        if v < 0x10000 {
            let unit = v as u16;
            assert(unit == v);
            r.push(unit);
            assert(utf16_of_char(c) =~= seq![unit]);
        } else {
            let u = v - 0x10000;
            assert(u / 0x400 < 0x400);
            let high = (0xD800 + u / 0x400) as u16;
            let low = (0xDC00 + u % 0x400) as u16;
            assert(high == 0xD800 + u / 0x400);
            assert(low == 0xDC00 + u % 0x400);
            r.push(high);
            r.push(low);
            assert(utf16_of_char(c) =~= seq![high, low]);
        }
        proof {
            assert(s@[k] == c);
            assert(s@.take(k + 1).drop_last() =~= s@.take(k));
            assert(s@.take(k + 1).last() == c);
            assert(r@ =~= before + utf16_of_char(c));
            if no_nul {
                assert(v != 0);
                assert forall|j: int| 0 <= j < r@.len() implies #[trigger] r@[j] != 0u16 by {
                    if j < before.len() {
                        assert(r@[j] == before[j]);
                    }
                }
            }
        }
    }
    proof {
        assert(s@.take(s@.len() as int) =~= s@);
    }
    r.push(0);
    r
}

/// The text of the About dialog.
pub open spec fn spec_about_text(
    version: Seq<char>,
    git_hash: Seq<char>,
    description: Seq<char>,
    authors: Seq<char>,
    built: Seq<char>,
) -> Seq<char> {
    "WinSoftVol  v"@ + version + " ("@ + git_hash + ")\n\n"@ + description + "\n\nAuthor:  "@ + authors
        + "\nBuilt:   "@ + built
}

/// The text of the About dialog: version, build commit, description,
/// authors and build time.
pub fn about_text(version: &str, git_hash: &str, description: &str, authors: &str, built: &str) -> (r: String)
    ensures
        r@ == spec_about_text(version@, git_hash@, description@, authors@, built@),
{
    let mut r = String::new();
    r.append("WinSoftVol  v");
    r.append(version);
    r.append(" (");
    r.append(git_hash);
    r.append(")\n\n");
    r.append(description);
    r.append("\n\nAuthor:  ");
    r.append(authors);
    r.append("\nBuilt:   ");
    r.append(built);
    r
}

/// The project's home page.
pub const HOMEPAGE_URL: &'static str = "https://github.com/jeffreytse/winsoftvol";

/// The author's GitHub Sponsors page.
pub const SPONSORS_URL: &'static str = "https://github.com/sponsors/jeffreytse";

/// A clickable link in a task dialog's text: `label`, opening `url`.
pub open spec fn spec_link(url: Seq<char>, label: Seq<char>) -> Seq<char> {
    "<a href=\""@ + url + "\">"@ + label + "</a>"@
}

/// The link to the project's home page.
pub open spec fn spec_homepage_link() -> Seq<char> {
    spec_link(HOMEPAGE_URL@, "Homepage"@)
}

/// The link to the author's GitHub Sponsors page.
pub open spec fn spec_sponsor_link() -> Seq<char> {
    spec_link(SPONSORS_URL@, "Sponsor on GitHub"@)
}

/// The link that downloads the release `tag`: its release page.
pub open spec fn spec_download_link(tag: Seq<char>) -> Seq<char> {
    spec_link(spec_release_page_url(tag), "Download "@ + tag)
}

/// The characters of an optional string.
pub open spec fn opt_view(s: Option<&str>) -> Option<Seq<char>> {
    match s {
        Some(t) => Some(t@),
        None => None,
    }
}

/// The links of the About dialog: the home page and GitHub Sponsors, and,
/// when a newer release `latest` is known, a line with its download link.
pub open spec fn spec_about_links(latest: Option<Seq<char>>) -> Seq<char> {
    let base = spec_homepage_link() + "  |  "@ + spec_sponsor_link();
    match latest {
        None => base,
        Some(tag) => base + "\n\nA newer version is available: "@ + spec_download_link(tag),
    }
}

/// The content of the About dialog: its text, then its links.
pub open spec fn spec_about_content(
    version: Seq<char>,
    git_hash: Seq<char>,
    description: Seq<char>,
    authors: Seq<char>,
    built: Seq<char>,
    latest: Option<Seq<char>>,
) -> Seq<char> {
    spec_about_text(version, git_hash, description, authors, built) + "\n\n"@ + spec_about_links(latest)
}

/// Appends the link `label`, opening `url`, to `r`.
fn append_link(r: &mut String, url: &str, label: &str)
    ensures
        final(r)@ == old(r)@ + spec_link(url@, label@),
{
    r.append("<a href=\"");
    r.append(url);
    r.append("\">");
    r.append(label);
    r.append("</a>");
}

/// The content of the About dialog, with clickable links to the home page
/// and to GitHub Sponsors, and a download link for `latest`, the newer
/// release, when one is known.
pub fn about_content(
    version: &str,
    git_hash: &str,
    description: &str,
    authors: &str,
    built: &str,
    latest: Option<&str>,
) -> (r: String)
    ensures
        r@ == spec_about_content(version@, git_hash@, description@, authors@, built@, opt_view(latest)),
{
    let mut r = about_text(version, git_hash, description, authors, built);
    r.append("\n\n");
    append_link(&mut r, HOMEPAGE_URL, "Homepage");
    r.append("  |  ");
    append_link(&mut r, SPONSORS_URL, "Sponsor on GitHub");
    match latest {
        Some(tag) => {
            r.append("\n\nA newer version is available: ");
            let url = release_page_url(tag);
            let mut label = String::new();
            label.append("Download ");
            label.append(tag);
            append_link(&mut r, url.as_str(), label.as_str());
        },
        None => {},
    }
    r
}

/// The About dialog's content holds the home page link and the GitHub
/// Sponsors link; when a newer release is known it holds the download link
/// of that release, and otherwise it ends with the Sponsors link.
pub proof fn lemma_about_content_links(
    version: Seq<char>,
    git_hash: Seq<char>,
    description: Seq<char>,
    authors: Seq<char>,
    built: Seq<char>,
    latest: Option<Seq<char>>,
)
    ensures
        ({
            let c = spec_about_content(version, git_hash, description, authors, built, latest);
            let text = spec_about_text(version, git_hash, description, authors, built);
            let home_at = (text.len() + "\n\n"@.len()) as int;
            let sponsor_at = (home_at + spec_homepage_link().len() + "  |  "@.len()) as int;
            &&& matches_at(c, spec_homepage_link(), home_at)
            &&& matches_at(c, spec_sponsor_link(), sponsor_at)
            &&& match latest {
                Some(tag) => matches_at(c, spec_download_link(tag), c.len() - spec_download_link(tag).len()),
                None => c.len() == sponsor_at + spec_sponsor_link().len(),
            }
        }),
{
    let c = spec_about_content(version, git_hash, description, authors, built, latest);
    let text = spec_about_text(version, git_hash, description, authors, built);
    let sep = "\n\n"@;
    let bar = "  |  "@;
    let home = spec_homepage_link();
    let sponsor = spec_sponsor_link();
    let home_at = (text.len() + sep.len()) as int;
    let sponsor_at = (home_at + home.len() + bar.len()) as int;
    let base = home + bar + sponsor;
    assert(spec_about_links(latest) =~= base + spec_about_links(latest).skip(base.len() as int));
    assert(c =~= text + sep + base + spec_about_links(latest).skip(base.len() as int));
    assert(c.subrange(home_at, home_at + home.len()) =~= home);
    assert(c.subrange(sponsor_at, sponsor_at + sponsor.len()) =~= sponsor);
    match latest {
        Some(tag) => {
            let d = spec_download_link(tag);
            assert(c.subrange(c.len() - d.len(), c.len() as int) =~= d);
        },
        None => {},
    }
}

} // verus!
