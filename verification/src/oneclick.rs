//! One-click installs: the link that asks for one, what a fresh process does
//! with such a link, and how the link's file is found and queued.

use vstd::prelude::*;
use crate::downloads::enqueued;
use crate::downloads::is_live;
use crate::downloads::new_download;
use crate::downloads::place_of;
use crate::downloads::DownloadCoordinator;
use crate::downloads::Enqueued;
use crate::error::GbError;
use crate::gamebanana::GBMod;
use crate::gamebanana::GbModDownload;
use crate::seqs::first_index;
use crate::seqs::first_index_at;
use crate::seqs::first_index_is_first;
use crate::seqs::first_index_none;
use crate::text::chars_of;
use crate::text::decimal;
use crate::text::is_digit;
use crate::text::u32_to_decimal;
use crate::text::same_text;

verus! {

/// What every one-click link starts with.
pub const DMM_PREFIX: &'static str = "divamodmanager:https://gamebanana.com/mmdl/";

/// What a one-click link asks for: a file of an item of some kind.
#[derive(Clone, Debug, PartialEq, Eq)]
pub struct GbDmmItem {
    pub item_id: String,
    pub itemtype: String,
    pub file_id: String,
}

/// What a [`GbDmmItem`] holds.
pub struct DeepLink {
    pub file_id: Seq<char>,
    pub itemtype: Seq<char>,
    pub item_id: Seq<char>,
}

impl View for GbDmmItem {
    type V = DeepLink;

    open spec fn view(&self) -> DeepLink {
        DeepLink { file_id: self.file_id@, itemtype: self.itemtype@, item_id: self.item_id@ }
    }
}

/// Whether `s` is one or more digits.
pub open spec fn is_number(s: Seq<char>) -> bool {
    s.len() > 0 && forall|i: int| 0 <= i < s.len() ==> is_digit(#[trigger] s[i])
}

/// Whether `s` is one or more characters, none of them a comma.
pub open spec fn is_word(s: Seq<char>) -> bool {
    s.len() > 0 && forall|i: int| 0 <= i < s.len() ==> #[trigger] s[i] != ','
}

/// Whether `link` can be written as a one-click link: its identifiers are
/// numbers and its kind holds no comma.
pub open spec fn is_request(link: DeepLink) -> bool {
    is_number(link.file_id) && is_word(link.itemtype) && is_number(link.item_id)
}

/// The one-click link that asks for `link`: the prefix, then the file, the
/// kind and the item, with a comma between them and nothing around them.
pub open spec fn link_text(link: DeepLink) -> Seq<char> {
    DMM_PREFIX@ + link.file_id + seq![','] + link.itemtype + seq![','] + link.item_id
}

/// Where the parts of the link `url` for `link` lie.
proof fn link_shape(url: Seq<char>, link: DeepLink)
    requires
        url == link_text(link),
    ensures
        url.len() == DMM_PREFIX@.len() + link.file_id.len() + link.itemtype.len()
            + link.item_id.len() + 2,
        url.subrange(0, DMM_PREFIX@.len() as int) == DMM_PREFIX@,
        forall|k: int|
            0 <= k < link.file_id.len() ==> #[trigger] url[DMM_PREFIX@.len() + k]
                == link.file_id[k],
        url[(DMM_PREFIX@.len() + link.file_id.len()) as int] == ',',
        forall|k: int|
            0 <= k < link.itemtype.len() ==> #[trigger] url[DMM_PREFIX@.len()
                + link.file_id.len() + 1 + k] == link.itemtype[k],
        url[(DMM_PREFIX@.len() + link.file_id.len() + 1 + link.itemtype.len()) as int] == ',',
        forall|k: int|
            0 <= k < link.item_id.len() ==> #[trigger] url[DMM_PREFIX@.len()
                + link.file_id.len() + link.itemtype.len() + 2 + k] == link.item_id[k],
{
    assert(url.subrange(0, DMM_PREFIX@.len() as int) =~= DMM_PREFIX@);
}

/// In the link of a request the file's number ends where the digits behind
/// the prefix end.
proof fn file_ends_at(url: Seq<char>, link: DeepLink, end: int)
    requires
        is_request(link),
        url == link_text(link),
        DMM_PREFIX@.len() <= end <= url.len(),
        forall|k: int| DMM_PREFIX@.len() <= k < end ==> is_digit(#[trigger] url[k]),
        end == url.len() || !is_digit(url[end]),
    ensures
        end == DMM_PREFIX@.len() + link.file_id.len(),
{
    let p = DMM_PREFIX@.len() as int;
    let f = link.file_id.len() as int;
    link_shape(url, link);
    if p + f < end {
        assert(is_digit(url[p + f]));
    } else if p + f > end {
        assert(url[p + (end - p)] == link.file_id[end - p]);
        assert(is_digit(link.file_id[end - p]));
    }
}

/// In the link of a request the kind ends at the first comma behind the
/// comma that ends the file's number.
proof fn kind_ends_at(url: Seq<char>, link: DeepLink, end: int)
    requires
        is_request(link),
        url == link_text(link),
        DMM_PREFIX@.len() + link.file_id.len() < end <= url.len(),
        forall|k: int| DMM_PREFIX@.len() + link.file_id.len() < k < end ==> #[trigger] url[k] != ',',
        end == url.len() || url[end] == ',',
    ensures
        end == DMM_PREFIX@.len() + link.file_id.len() + 1 + link.itemtype.len(),
{
    let start = DMM_PREFIX@.len() + link.file_id.len() + 1;
    let t = link.itemtype.len() as int;
    link_shape(url, link);
    if start + t < end {
        assert(url[start + t] != ',');
    } else if start + t > end {
        assert(url[start + (end - start)] == link.itemtype[end - start]);
    }
}

/// A text is the one-click link of one request at most.
pub proof fn link_names_one_request(first: DeepLink, second: DeepLink)
    requires
        is_request(first),
        is_request(second),
        link_text(first) == link_text(second),
    ensures
        first == second,
{
    let url = link_text(first);
    let p = DMM_PREFIX@.len() as int;
    link_shape(url, first);
    link_shape(url, second);
    let (a, b) = (first.file_id.len() as int, second.file_id.len() as int);
    if a < b {
        assert(url[p + a] == second.file_id[a]);
        assert(is_digit(second.file_id[a]));
    }
    if b < a {
        assert(url[p + b] == first.file_id[b]);
        assert(is_digit(first.file_id[b]));
    }
    assert(first.file_id =~= second.file_id) by {
        assert forall|k: int| 0 <= k < a implies first.file_id[k] == second.file_id[k] by {
            assert(url[p + k] == first.file_id[k]);
        }
    }
    let (c, d) = (first.itemtype.len() as int, second.itemtype.len() as int);
    if c < d {
        assert(url[p + a + 1 + c] == second.itemtype[c]);
    }
    if d < c {
        assert(url[p + a + 1 + d] == first.itemtype[d]);
    }
    assert(first.itemtype =~= second.itemtype) by {
        assert forall|k: int| 0 <= k < c implies first.itemtype[k] == second.itemtype[k] by {
            assert(url[p + a + 1 + k] == first.itemtype[k]);
        }
    }
    assert(first.item_id =~= second.item_id) by {
        assert forall|k: int| 0 <= k < first.item_id.len() implies first.item_id[k]
            == second.item_id[k] by {
            assert(url[p + a + c + 2 + k] == first.item_id[k]);
        }
    }
}

/// What reading `url` as a one-click link gives: the request whose link it
/// is, and nothing where it is the link of none.
pub open spec fn parsed(url: Seq<char>) -> Option<DeepLink> {
    if exists|link: DeepLink| is_request(link) && url == link_text(link) {
        Some(choose|link: DeepLink| is_request(link) && url == link_text(link))
    } else {
        None
    }
}

/// Reading the link of a request gives that request back, part by part.
pub proof fn parse_reads_what_was_written(link: DeepLink)
    requires
        is_request(link),
    ensures
        parsed(link_text(link)) == Some(link),
{
    let url = link_text(link);
    let found = choose|found: DeepLink| is_request(found) && url == link_text(found);
    link_names_one_request(found, link);
}

/// The text of `chars` from `from` up to `to`.
fn text_between(chars: &Vec<char>, from: usize, to: usize) -> (out: String)
    requires
        from <= to <= chars@.len(),
    ensures
        out@ == chars@.subrange(from as int, to as int),
{
    let mut out = String::new();
    let mut i = from;
    while i < to
        invariant
            from <= i <= to <= chars@.len(),
            out@ == chars@.subrange(from as int, i as int),
        decreases to - i,
    {
        out.push(chars[i]);
        assert(chars@.subrange(from as int, i + 1) =~= chars@.subrange(from as int, i as int).push(
            chars@[i as int],
        ));
        i += 1;
    }
    out
}

fn is_digit_char(c: char) -> (digit: bool)
    ensures
        digit == is_digit(c),
{
    '0' <= c && c <= '9'
}

/// Reads `dmm_url` as a one-click link. A text of any other shape is no
/// link; that is no failure.
pub fn parse_dmm_url(dmm_url: String) -> (item: Option<GbDmmItem>)
    ensures
        match item {
            Some(found) => is_request(found@) && dmm_url@ == link_text(found@),
            None => forall|link: DeepLink| is_request(link) ==> dmm_url@ != #[trigger] link_text(link),
        },
        item matches Some(found) ==> parsed(dmm_url@) == Some(found@),
        item is None ==> parsed(dmm_url@) is None,
{
    let url = chars_of(dmm_url.as_str());
    let prefix = chars_of(DMM_PREFIX);
    let p = prefix.len();
    let n = url.len();
    let ghost text = dmm_url@;
    if n < p {
        assert forall|link: DeepLink| is_request(link) implies text != #[trigger] link_text(link) by {
            if text == link_text(link) {
                link_shape(text, link);
            }
        }
        return None;
    }
    let mut i: usize = 0;
    while i < p
        invariant
            i <= p <= n,
            p == prefix@.len(),
            n == url@.len(),
            url@ == text,
            text == dmm_url@,
            prefix@ == DMM_PREFIX@,
            url@.subrange(0, i as int) == prefix@.subrange(0, i as int),
        decreases p - i,
    {
        if url[i] != prefix[i] {
            assert forall|link: DeepLink| is_request(link) implies text != #[trigger] link_text(
                link,
            ) by {
                if text == link_text(link) {
                    link_shape(text, link);
                    assert(text.subrange(0, p as int)[i as int] == text[i as int]);
                    assert(text.subrange(0, p as int)[i as int] == prefix@[i as int]);
                }
            }
            return None;
        }
        assert(url@.subrange(0, i + 1) =~= url@.subrange(0, i as int).push(url@[i as int]));
        assert(prefix@.subrange(0, i + 1) =~= prefix@.subrange(0, i as int).push(prefix@[i as int]));
        i += 1;
    }
    assert(prefix@.subrange(0, p as int) =~= prefix@);
    let mut a: usize = p;
    while a < n && is_digit_char(url[a])
        invariant
            p <= a <= n,
            n == url@.len(),
            forall|k: int| p <= k < a ==> is_digit(#[trigger] url@[k]),
        decreases n - a,
    {
        a += 1;
    }
    if a == p || a == n || url[a] != ',' {
        assert forall|link: DeepLink| is_request(link) implies text != #[trigger] link_text(link) by {
            if text == link_text(link) {
                file_ends_at(text, link, a as int);
                link_shape(text, link);
            }
        }
        return None;
    }
    let mut b: usize = a + 1;
    while b < n && url[b] != ','
        invariant
            a < b <= n,
            n == url@.len(),
            forall|k: int| a < k < b ==> #[trigger] url@[k] != ',',
        decreases n - b,
    {
        b += 1;
    }
    if b == a + 1 || b == n {
        assert forall|link: DeepLink| is_request(link) implies text != #[trigger] link_text(link) by {
            if text == link_text(link) {
                file_ends_at(text, link, a as int);
                kind_ends_at(text, link, b as int);
                link_shape(text, link);
            }
        }
        return None;
    }
    let mut c: usize = b + 1;
    while c < n && is_digit_char(url[c])
        invariant
            b < c <= n,
            n == url@.len(),
            forall|k: int| b < k < c ==> is_digit(#[trigger] url@[k]),
        decreases n - c,
    {
        c += 1;
    }
    if c == b + 1 || c < n {
        assert forall|link: DeepLink| is_request(link) implies text != #[trigger] link_text(link) by {
            if text == link_text(link) {
                file_ends_at(text, link, a as int);
                kind_ends_at(text, link, b as int);
                link_shape(text, link);
                assert(text[b + 1 + (c - b - 1)] == link.item_id[c - b - 1]);
                assert(is_digit(link.item_id[c - b - 1]));
            }
        }
        return None;
    }
    let found = GbDmmItem {
        file_id: text_between(&url, p, a),
        itemtype: text_between(&url, a + 1, b),
        item_id: text_between(&url, b + 1, n),
    };
    proof {
        assert(text =~= link_text(found@));
        assert(is_request(found@));
        parse_reads_what_was_written(found@);
    }
    Some(found)
}

/// The first of `args` that is a one-click link.
pub open spec fn first_link(args: Seq<String>) -> Option<int> {
    first_index(args, |arg: String| parsed(arg@) is Some)
}

/// What a process does once it has looked at its arguments.
#[derive(Clone, Debug, PartialEq, Eq)]
pub enum Startup {
    /// An argument is a one-click link: offer it to an instance that is
    /// running already, before anything else is set up.
    Forward(String),
    /// No argument is a one-click link: start as the only instance.
    RunLocal,
}

/// Decides what a fresh process does with its arguments `args`: the first
/// that is a one-click link is forwarded as it stands.
pub fn plan_startup(args: &Vec<String>) -> (plan: Startup)
    ensures
        plan == match first_link(args@) {
            Some(i) => Startup::Forward(args@[i]),
            None => Startup::RunLocal,
        },
        first_link(args@) matches Some(i) ==> 0 <= i < args@.len(),
{
    let ghost is_link = |arg: String| parsed(arg@) is Some;
    proof {
        first_index_is_first(args@, is_link);
    }
    for i in 0..args.len()
        invariant
            is_link == |arg: String| parsed(arg@) is Some,
            forall|k: int| 0 <= k < i ==> !is_link(#[trigger] args@[k]),
    {
        match parse_dmm_url(args[i].clone()) {
            Some(_) => {
                proof {
                    first_index_at(args@, is_link, i as int);
                }
                return Startup::Forward(args[i].clone());
            },
            None => {},
        }
    }
    proof {
        first_index_none(args@, is_link);
    }
    Startup::RunLocal
}

/// What a process does once it has tried to forward a one-click link.
#[derive(Clone, Debug, PartialEq, Eq)]
pub enum Forwarded {
    /// Another instance has the link: leave at once.
    Exit,
    /// No instance took the link: start up and handle it here.
    HandleLocally(String),
}

/// Decides what follows the attempt to forward `url`.
pub fn after_forward(url: String, delivered: bool) -> (next: Forwarded)
    ensures
        next == if delivered {
            Forwarded::Exit
        } else {
            Forwarded::HandleLocally(url)
        },
{
    if delivered {
        Forwarded::Exit
    } else {
        Forwarded::HandleLocally(url)
    }
}

/// The place of the first of `files` whose identifier, written in decimal,
/// is `file_id`.
pub open spec fn file_place(files: Seq<GbModDownload>, file_id: Seq<char>) -> Option<int> {
    first_index(files, |f: GbModDownload| decimal(f.id as nat) == file_id)
}

/// Finds among the files of `detail` the one that `request` asks for: the
/// first whose identifier, written in decimal, is the request's file.
pub fn resolve_file<'a>(request: &GbDmmItem, detail: &'a GBMod) -> (file: Option<&'a GbModDownload>)
    ensures
        match file_place(detail.files@, request.file_id@) {
            Some(i) => 0 <= i < detail.files@.len() && file == Some(&detail.files@[i]),
            None => file is None,
        },
{
    let ghost asked = |f: GbModDownload| decimal(f.id as nat) == request.file_id@;
    let mut i: usize = 0;
    while i < detail.files.len()
        invariant
            i <= detail.files@.len(),
            asked == |f: GbModDownload| decimal(f.id as nat) == request.file_id@,
            forall|k: int| 0 <= k < i ==> !asked(#[trigger] detail.files@[k]),
        decreases detail.files@.len() - i,
    {
        let written = u32_to_decimal(detail.files[i].id);
        if same_text(written.as_str(), request.file_id.as_str()) {
            proof {
                first_index_at(detail.files@, asked, i as int);
            }
            return Some(&detail.files[i]);
        }
        i += 1;
    }
    proof {
        first_index_none(detail.files@, asked);
    }
    None
}

/// Queues the file that the one-click `request` asks for, once the
/// description `detail` of its item has been fetched. A download that this
/// makes goes to the end of the list and is marked as fresh, to be announced
/// with its place; while a download of the file is under way, that one is
/// found and nothing is to be announced. Where the item could not be
/// described or has no such file, nothing is queued and the file counts as
/// not found; nobody tries again.
pub fn handle_dmm_oneclick(
    downloads: &mut DownloadCoordinator,
    request: &GbDmmItem,
    detail: &Option<GBMod>,
) -> (queued: Result<Enqueued, GbError>)
    ensures
        match *detail {
            Some(found) => match file_place(found.files@, request.file_id@) {
                Some(i) => {
                    &&& queued matches Ok(out)
                    &&& final(downloads)@ == enqueued(old(downloads)@, found.files@[i])
                    &&& place_of(final(downloads)@, found.files@[i].id) == Some(out.position as int)
                    &&& out.position < final(downloads)@.len()
                    &&& out.task == final(downloads)@[out.position as int]
                    &&& out.fresh == !is_live(old(downloads)@, found.files@[i].id)
                    &&& out.fresh ==> out.position == old(downloads)@.len() && out.task
                        == new_download(found.files@[i])
                },
                None => queued == Err::<Enqueued, GbError>(GbError::NotFound) && final(downloads)@
                    == old(downloads)@,
            },
            None => queued == Err::<Enqueued, GbError>(GbError::NotFound) && final(downloads)@
                == old(downloads)@,
        },
{
    let found = match detail {
        Some(found) => found,
        None => {
            return Err(GbError::NotFound);
        },
    };
    match resolve_file(request, found) {
        Some(file) => Ok(downloads.enqueue(file.clone())),
        None => Err(GbError::NotFound),
    }
}

} // verus!
