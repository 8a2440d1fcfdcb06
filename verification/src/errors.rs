//! Diagnostics of the downloader: recognising error lines and deciding
//! whether a failed item is worth another attempt.

use vstd::prelude::*;
use vstd::string::{StrSliceExecFns, StringExecFns};
use crate::text::{chars_of, contains, contains_text, find_from, find_text, lemma_find_from, string_of};
use crate::words::{after_blanks, after_word, skip_blanks, skip_word};

verus! {

/// The marker that the downloader puts on every line that reports a failure.
pub const ERROR_MARKER: &'static str = "ERROR:";

/// A failure that no retry can mend, whatever else the message says.
pub const VIDEO_UNAVAILABLE: &'static str = "Video unavailable";

/// The video can be seen only by those whom its owner lets in.
pub const PRIVATE_VIDEO: &'static str = "Private video";

/// The address names no playlist.
pub const NONEXISTENT_PLAYLIST: &'static str = "The playlist does not exist";

/// The address names no channel or playlist, and the site answered with its
/// home page.
pub const HOMEPAGE_REDIRECT: &'static str = "redirected to youtube.com home page";

/// The site took the video down.
pub const VIOLENT_VIDEO: &'static str = "violating YouTube's policy";

/// The uploader took the video down.
pub const REMOVED_VIDEO: &'static str = "removed by the uploader";

/// The downloader stopped after trying several times.
pub const YTDLP_GAVE_UP: &'static str = "Giving up after";

/// The downloader did not find what it needs to go on.
pub const VIDEO_NOT_FOUND: &'static str = "not found, unable to continue";

/// The network was out of reach: the one known failure that may pass.
pub const NETWORK_FAIL: &'static str = "Temporary failure in name resolution";

/// The site did not hand out the page that describes the video.
pub const NO_API_PAGE: &'static str = "Unable to download API page";

/// Converting the downloaded file failed.
pub const ENCODER_STREAM_ERROR: &'static str = "Conversion failed";

/// The site's answer broke off.
pub const NONEXISTENT_VIDEO: &'static str = "Incomplete data received";

/// What a `DownloadError` holds, as plain text.
pub struct DownloadErrorModel {
    pub raw_message: Seq<char>,
    pub item_identifier: Seq<char>,
}

/// One failure that the downloader reported: what it said and for which item.
#[derive(Debug, Clone, PartialEq, Eq)]
pub struct DownloadError {
    raw_message: String,
    item_identifier: String,
}

impl View for DownloadError {
    type V = DownloadErrorModel;

    closed spec fn view(&self) -> DownloadErrorModel {
        DownloadErrorModel {
            raw_message: self.raw_message@,
            item_identifier: self.item_identifier@,
        }
    }
}

/// The failure that the text after the error marker describes.
///
/// Where the text begins with a bracketed source tag followed by a word that
/// ends in a colon, that word names the item and the message is what follows
/// it. Otherwise the item is unknown (empty) and the message is the whole
/// text. Blanks before the message are dropped.
pub open spec fn error_after_marker(after: Seq<char>) -> DownloadErrorModel {
    let b0 = skip_blanks(after, 0);
    let e0 = skip_word(after, b0);
    let b1 = skip_blanks(after, e0);
    let e1 = skip_word(after, b1);
    let b2 = skip_blanks(after, e1);
    if e0 > b0 && after[b0] == '[' && after[e0 - 1] == ']' && e1 - b1 >= 2 && after[e1 - 1] == ':' {
        DownloadErrorModel {
            raw_message: after.subrange(b2, after.len() as int),
            item_identifier: after.subrange(b1, e1 - 1),
        }
    } else {
        DownloadErrorModel {
            raw_message: after.subrange(b0, after.len() as int),
            item_identifier: Seq::empty(),
        }
    }
}

/// The failure that `line` reports: none unless the line holds the error
/// marker, else the one described after the marker's first occurrence.
pub open spec fn classified(line: Seq<char>) -> Option<DownloadErrorModel> {
    match find_from(line, ERROR_MARKER@, 0) {
        None => None,
        Some(p) => Some(
            error_after_marker(line.subrange(p + ERROR_MARKER@.len(), line.len() as int)),
        ),
    }
}

/// How a failure is shown in a list: the item, a colon and the message, or
/// the message alone where the item is unknown.
pub open spec fn label_of(e: DownloadErrorModel) -> Seq<char> {
    if e.item_identifier.len() == 0 {
        e.raw_message
    } else {
        e.item_identifier + seq![':', ' '] + e.raw_message
    }
}

/// The view of an optional failure.
pub open spec fn error_view(e: Option<DownloadError>) -> Option<DownloadErrorModel> {
    match e {
        Some(e) => Some(e@),
        None => None,
    }
}

impl DownloadError {
    /// A failure with the given message for the given item.
    pub fn new(raw_message: &str, item_identifier: &str) -> (e: DownloadError)
        ensures
            e@.raw_message == raw_message@,
            e@.item_identifier == item_identifier@,
    {
        DownloadError {
            raw_message: raw_message.to_owned(),
            item_identifier: item_identifier.to_owned(),
        }
    }

    /// What the downloader said.
    pub fn error_msg(&self) -> (m: &String)
        ensures
            m@ == self@.raw_message,
    {
        &self.raw_message
    }

    /// The failure as one line of a list.
    pub fn to_string(&self) -> (label: String)
        ensures
            label@ == label_of(self@),
    {
        let mut label = self.item_identifier.clone();
        if self.item_identifier.as_str().unicode_len() == 0 {
            return self.raw_message.clone();
        }
        label.push(':');
        label.push(' ');
        label.append(self.raw_message.as_str());
        label
    }

    /// The item that failed; empty where the downloader did not name it.
    pub fn video_id(&self) -> (id: &String)
        ensures
            id@ == self@.item_identifier,
    {
        &self.item_identifier
    }
}

/// Turns one line of the downloader's output into the failure it reports.
///
/// A line reports a failure exactly when it holds the error marker.
pub fn classify(line: &str) -> (r: Option<DownloadError>)
    ensures
        error_view(r) == classified(line@),
        r is Some <==> contains_text(line@, ERROR_MARKER@),
{
    let text = chars_of(line);
    let marker = chars_of(ERROR_MARKER);
    proof {
        crate::text::lemma_find_contains(text@, marker@);
        lemma_find_from(text@, marker@, 0);
    }
    match find_text(&text, &marker, 0) {
        None => None,
        Some(p) => {
            let after = crate::words::slice_of(&text, p + marker.len(), text.len());
            Some(error_from(&after))
        },
    }
}

/// Reads the item and the message out of the text that follows the marker.
fn error_from(after: &Vec<char>) -> (e: DownloadError)
    ensures
        e@ == error_after_marker(after@),
{
    let n = after.len();
    let b0 = after_blanks(after, 0);
    let e0 = after_word(after, b0);
    let b1 = after_blanks(after, e0);
    let e1 = after_word(after, b1);
    let b2 = after_blanks(after, e1);
    if e0 > b0 && after[b0] == '[' && after[e0 - 1] == ']' && e1 - b1 >= 2 && after[e1 - 1] == ':' {
        DownloadError {
            raw_message: string_of(after, b2, n),
            item_identifier: string_of(after, b1, e1 - 1),
        }
    } else {
        DownloadError { raw_message: string_of(after, b0, n), item_identifier: String::new() }
    }
}

// ---------------------------------------------------------------------------
// The table of known failures
// ---------------------------------------------------------------------------

/// Position of the first entry at or after `i` whose message is `message`.
pub open spec fn entry_index(table: Seq<(Seq<char>, bool)>, message: Seq<char>, i: int) -> Option<int>
    decreases table.len() - i,
{
    if i < 0 || i >= table.len() {
        None
    } else if table[i].0 == message {
        Some(i)
    } else {
        entry_index(table, message, i + 1)
    }
}

/// The table after `message` was given the verdict `recoverable`: an entry
/// with that message is replaced where it stands, else a new one is added at
/// the end.
pub open spec fn inserted(
    table: Seq<(Seq<char>, bool)>,
    message: Seq<char>,
    recoverable: bool,
) -> Seq<(Seq<char>, bool)> {
    match entry_index(table, message, 0) {
        Some(i) => table.update(i, (message, recoverable)),
        None => table.push((message, recoverable)),
    }
}

/// The verdict of the first entry at or after `i` whose message occurs in
/// `message`; recoverable where there is none.
pub open spec fn verdict_from(message: Seq<char>, table: Seq<(Seq<char>, bool)>, i: int) -> bool
    decreases table.len() - i,
{
    if i < 0 || i >= table.len() {
        true
    } else if contains_text(message, table[i].0) {
        table[i].1
    } else {
        verdict_from(message, table, i + 1)
    }
}

/// Whether a failure with this message is worth another attempt.
///
/// A message that says the video is unavailable never is. Otherwise the first
/// entry of the table whose text occurs in the message decides, and a message
/// that no entry knows is recoverable.
pub open spec fn recoverable(message: Seq<char>, table: Seq<(Seq<char>, bool)>) -> bool {
    !contains_text(message, VIDEO_UNAVAILABLE@) && verdict_from(message, table, 0)
}

/// `entry_index` finds the first entry with the message, or none if no entry
/// at or after `i` has it.
pub proof fn lemma_entry_index(table: Seq<(Seq<char>, bool)>, message: Seq<char>, i: int)
    requires
        0 <= i,
    ensures
        match entry_index(table, message, i) {
            Some(k) => i <= k < table.len() && table[k].0 == message && forall|j: int|
                i <= j < k ==> table[j].0 != message,
            None => forall|j: int| i <= j < table.len() ==> table[j].0 != message,
        },
    decreases table.len() - i,
{
    if i < table.len() && table[i].0 != message {
        lemma_entry_index(table, message, i + 1);
    }
}

/// Giving a verdict to a message that the table does not know adds an entry
/// at its end.
pub proof fn lemma_insert_fresh(table: Seq<(Seq<char>, bool)>, message: Seq<char>, verdict: bool)
    requires
        forall|j: int| 0 <= j < table.len() ==> (#[trigger] table[j]).0 != message,
    ensures
        inserted(table, message, verdict) == table.push((message, verdict)),
{
    lemma_entry_index(table, message, 0);
}

/// Known failure messages, each with the verdict whether a retry can help.
/// No message occurs twice; the entries keep the order in which their
/// messages were first inserted.
pub struct ErrorTable {
    entries: Vec<(String, bool)>,
}

impl View for ErrorTable {
    type V = Seq<(Seq<char>, bool)>;

    closed spec fn view(&self) -> Seq<(Seq<char>, bool)> {
        Seq::new(self.entries@.len(), |k: int| (self.entries@[k].0@, self.entries@[k].1))
    }
}

/// No message occurs twice in `table`.
pub open spec fn distinct_messages(table: Seq<(Seq<char>, bool)>) -> bool {
    forall|i: int, j: int| 0 <= i < j < table.len() ==> (#[trigger] table[i]).0 != (#[trigger] table[j]).0
}

impl ErrorTable {
    #[verifier::type_invariant]
    spec fn well_formed(self) -> bool {
        distinct_messages(self@)
    }

    /// A table without entries.
    pub fn new() -> (t: ErrorTable)
        ensures
            t@ == Seq::<(Seq<char>, bool)>::empty(),
    {
        ErrorTable { entries: Vec::new() }
    }

    /// The number of known messages.
    pub fn len(&self) -> (n: usize)
        ensures
            n == self@.len(),
    {
        self.entries.len()
    }

    /// Gives `message` the verdict `recoverable`.
    pub fn insert(&mut self, message: &str, recoverable: bool)
        ensures
            final(self)@ == inserted(old(self)@, message@, recoverable),
            distinct_messages(final(self)@),
    {
        proof {
            use_type_invariant(&*self);
            lemma_entry_index(self@, message@, 0);
        }
        let ghost before = self@;
        let mut entries: Vec<(String, bool)> = Vec::new();
        std::mem::swap(&mut entries, &mut self.entries);
        let owned: String = message.to_owned();
        let mut i: usize = 0;
        let mut found: Option<usize> = None;
        while i < entries.len() && found.is_none()
            invariant
                i <= entries.len(),
                owned@ == message@,
                before == Seq::new(entries@.len(), |k: int| (entries@[k].0@, entries@[k].1)),
                found is None ==> entry_index(before, message@, 0) == entry_index(
                    before,
                    message@,
                    i as int,
                ),
                found is Some ==> found->Some_0 < entries.len() && entry_index(before, message@, 0)
                    == Some(found->Some_0 as int),
            decreases entries.len() - i + (if found is None { 1int } else { 0int }),
        {
            if entries[i].0 == owned {
                found = Some(i);
            } else {
                i += 1;
            }
        }
        match found {
            Some(k) => {
                entries.set(k, (owned, recoverable));
            },
            None => {
                entries.push((owned, recoverable));
            },
        }
        proof {
            let after = Seq::new(entries@.len(), |k: int| (entries@[k].0@, entries@[k].1));
            assert(after =~= inserted(before, message@, recoverable));
            assert forall|i: int, j: int| 0 <= i < j < after.len() implies (#[trigger] after[i]).0
                != (#[trigger] after[j]).0 by {
                if j < before.len() {
                    assert(before[i].0 != before[j].0);
                } else {
                    assert(before[i].0 != message@);
                }
            }
        }
        self.entries = entries;
    }

    /// The verdict recorded for exactly this message, if there is one.
    pub fn get(&self, message: &str) -> (r: Option<bool>)
        ensures
            r == match entry_index(self@, message@, 0) {
                Some(k) => Some(self@[k].1),
                None => None,
            },
    {
        let owned: String = message.to_owned();
        let mut i: usize = 0;
        while i < self.entries.len()
            invariant
                i <= self.entries.len(),
                owned@ == message@,
                entry_index(self@, message@, 0) == entry_index(self@, message@, i as int),
            decreases self.entries.len() - i,
        {
            if self.entries[i].0 == owned {
                return Some(self.entries[i].1);
            }
            i += 1;
        }
        None
    }
}

/// Adds a message that the table does not hold yet.
fn add_known(table: &mut ErrorTable, message: &'static str, verdict: bool)
    requires
        forall|j: int| 0 <= j < old(table)@.len() ==> (#[trigger] old(table)@[j]).0 != message@,
    ensures
        final(table)@ == old(table)@.push((message@, verdict)),
{
    proof {
        lemma_insert_fresh(table@, message@, verdict);
    }
    table.insert(message, verdict);
}

/// The failures that the downloader is known to report, each with the
/// verdict whether another attempt may help.
pub open spec fn known_failures() -> Seq<(Seq<char>, bool)> {
    seq![
        (PRIVATE_VIDEO@, false),
        (NONEXISTENT_PLAYLIST@, false),
        (HOMEPAGE_REDIRECT@, false),
        (VIOLENT_VIDEO@, false),
        (REMOVED_VIDEO@, false),
        (YTDLP_GAVE_UP@, false),
        (VIDEO_NOT_FOUND@, false),
        (NETWORK_FAIL@, true),
        (NO_API_PAGE@, false),
        (ENCODER_STREAM_ERROR@, false),
        (NONEXISTENT_VIDEO@, false),
    ]
}

/// The eleven known failures are eleven different messages, and the failure
/// of the network is the only one of them that another attempt may mend.
pub proof fn lemma_known_failures()
    ensures
        known_failures().len() == 11,
        distinct_messages(known_failures()),
        forall|k: int|
            0 <= k < 11 ==> ((#[trigger] known_failures()[k]).1 <==> known_failures()[k].0
                == NETWORK_FAIL@),
{
    reveal_strlit("Private video");
    reveal_strlit("The playlist does not exist");
    reveal_strlit("redirected to youtube.com home page");
    reveal_strlit("violating YouTube's policy");
    reveal_strlit("removed by the uploader");
    reveal_strlit("Giving up after");
    reveal_strlit("not found, unable to continue");
    reveal_strlit("Temporary failure in name resolution");
    reveal_strlit("Unable to download API page");
    reveal_strlit("Conversion failed");
    reveal_strlit("Incomplete data received");
    // The messages differ in length, but for two that differ in their first letter.
    assert(PRIVATE_VIDEO@.len() == 13);
    assert(NONEXISTENT_PLAYLIST@.len() == 27);
    assert(HOMEPAGE_REDIRECT@.len() == 35);
    assert(VIOLENT_VIDEO@.len() == 26);
    assert(REMOVED_VIDEO@.len() == 23);
    assert(YTDLP_GAVE_UP@.len() == 15);
    assert(VIDEO_NOT_FOUND@.len() == 29);
    assert(NETWORK_FAIL@.len() == 36);
    assert(NO_API_PAGE@.len() == 27);
    assert(ENCODER_STREAM_ERROR@.len() == 17);
    assert(NONEXISTENT_VIDEO@.len() == 24);
    assert(NONEXISTENT_PLAYLIST@[0] != NO_API_PAGE@[0]);
}

/// The table of the failures that the downloader is known to report. Only a
/// failure of the network is worth another attempt.
pub fn init_error_msg_lut() -> (table: ErrorTable)
    ensures
        table@ == known_failures(),
        table@.len() == 11,
{
    proof {
        lemma_known_failures();
        let known = known_failures();
        assert(known[0].0 == PRIVATE_VIDEO@ && known[1].0 == NONEXISTENT_PLAYLIST@ && known[2].0
            == HOMEPAGE_REDIRECT@ && known[3].0 == VIOLENT_VIDEO@ && known[4].0 == REMOVED_VIDEO@
            && known[5].0 == YTDLP_GAVE_UP@ && known[6].0 == VIDEO_NOT_FOUND@ && known[7].0
            == NETWORK_FAIL@ && known[8].0 == NO_API_PAGE@ && known[9].0 == ENCODER_STREAM_ERROR@
            && known[10].0 == NONEXISTENT_VIDEO@);
    }
    let mut table = ErrorTable::new();
    add_known(&mut table, PRIVATE_VIDEO, false);
    add_known(&mut table, NONEXISTENT_PLAYLIST, false);
    add_known(&mut table, HOMEPAGE_REDIRECT, false);
    add_known(&mut table, VIOLENT_VIDEO, false);
    add_known(&mut table, REMOVED_VIDEO, false);
    add_known(&mut table, YTDLP_GAVE_UP, false);
    add_known(&mut table, VIDEO_NOT_FOUND, false);
    add_known(&mut table, NETWORK_FAIL, true);
    add_known(&mut table, NO_API_PAGE, false);
    add_known(&mut table, ENCODER_STREAM_ERROR, false);
    add_known(&mut table, NONEXISTENT_VIDEO, false);
    table
}

/// Whether it makes sense to try the failed download again.
pub fn is_recoverable(error: &DownloadError, table: &ErrorTable) -> (r: bool)
    ensures
        r == recoverable(error@.raw_message, table@),
{
    let message = chars_of(error.raw_message.as_str());
    let unavailable = chars_of(VIDEO_UNAVAILABLE);
    if contains(&message, &unavailable) {
        return false;
    }
    let mut i: usize = 0;
    while i < table.entries.len()
        invariant
            i <= table.entries.len(),
            message@ == error@.raw_message,
            !contains_text(message@, VIDEO_UNAVAILABLE@),
            verdict_from(message@, table@, 0) == verdict_from(message@, table@, i as int),
        decreases table.entries.len() - i,
    {
        let known = chars_of(table.entries[i].0.as_str());
        assert(table@[i as int] == (table.entries@[i as int].0@, table.entries@[i as int].1));
        if contains(&message, &known) {
            return table.entries[i].1;
        }
        i += 1;
    }
    true
}

} // verus!
