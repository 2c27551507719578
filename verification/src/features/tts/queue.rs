//! What the speaking queue says for each message.

use vstd::prelude::*;
use crate::database::TTSUser;
use crate::text::{decimal, push_decimal, push_str, starts_with, views};

verus! {

/// `"{num} {name}s"`, `"an {name}"` / `"a {name}"` or nothing, for a count of
/// attachments of one kind.
pub open spec fn single_attachment_text(num: nat, name: Seq<char>, use_an: bool) -> Seq<char> {
    if num > 1 {
        decimal(num) + " "@ + name + "s"@
    } else if num == 1 {
        if use_an {
            "an "@ + name
        } else {
            "a "@ + name
        }
    } else {
        Seq::empty()
    }
}

/// Describes `num` attachments of the kind `name`.
pub fn make_single_attachment_text(num: u32, name: &str, use_an: bool) -> (r: String)
    ensures
        r@ == single_attachment_text(num as nat, name@, use_an),
{
    let mut s = String::new();
    if num > 1 {
        push_decimal(&mut s, num as u64);
        push_str(&mut s, " ");
        push_str(&mut s, name);
        push_str(&mut s, "s");
        assert(s@ =~= decimal(num as nat) + " "@ + name@ + "s"@);
    } else if num == 1 {
        if use_an {
            push_str(&mut s, "an ");
        } else {
            push_str(&mut s, "a ");
        }
        push_str(&mut s, name);
        assert(s@ =~= (if use_an { "an "@ } else { "a "@ }) + name@);
    } else {
        assert(s@ =~= Seq::<char>::empty());
    }
    s
}

/// The kind of an attachment, read from its MIME content type.
pub enum AttachmentKind {
    Image,
    Video,
    Audio,
    File,
}

pub open spec fn attachment_kind(content_type: Option<Seq<char>>) -> AttachmentKind {
    match content_type {
        Some(t) => if "image/"@.is_prefix_of(t) {
            AttachmentKind::Image
        } else if "video/"@.is_prefix_of(t) {
            AttachmentKind::Video
        } else if "audio/"@.is_prefix_of(t) {
            AttachmentKind::Audio
        } else {
            AttachmentKind::File
        },
        None => AttachmentKind::File,
    }
}

/// What a message carries besides its text.
pub struct MessageExtras {
    /// The content type of each attachment, where Discord reports one.
    pub attachment_types: Vec<Option<String>>,
    pub has_poll: bool,
    pub has_reference: bool,
}

pub open spec fn opt_view(o: Option<String>) -> Option<Seq<char>> {
    match o {
        Some(s) => Some(s@),
        None => None,
    }
}

pub open spec fn type_views(v: Seq<Option<String>>) -> Seq<Option<Seq<char>>> {
    v.map_values(|o: Option<String>| opt_view(o))
}

/// How many of the content types are of the given kind.
pub open spec fn count_kind(types: Seq<Option<Seq<char>>>, kind: AttachmentKind) -> nat
    decreases types.len(),
{
    if types.len() == 0 {
        0
    } else {
        count_kind(types.drop_last(), kind) + if attachment_kind(types.last()) == kind {
            1nat
        } else {
            0nat
        }
    }
}

proof fn lemma_count_kind_bound(types: Seq<Option<Seq<char>>>, kind: AttachmentKind)
    ensures
        count_kind(types, kind) <= types.len(),
    decreases types.len(),
{
    if types.len() > 0 {
        lemma_count_kind_bound(types.drop_last(), kind);
    }
}

pub open spec fn part_if(cond: bool, part: Seq<char>) -> Seq<Seq<char>> {
    if cond {
        seq![part]
    } else {
        Seq::empty()
    }
}

/// The phrases describing a message's attachments, links, poll and reference, in
/// the order in which they are read.
pub open spec fn attachment_parts(
    types: Seq<Option<Seq<char>>>,
    has_poll: bool,
    has_reference: bool,
    num_links: nat,
) -> Seq<Seq<char>> {
    let images = count_kind(types, AttachmentKind::Image);
    let videos = count_kind(types, AttachmentKind::Video);
    let audios = count_kind(types, AttachmentKind::Audio);
    let files = count_kind(types, AttachmentKind::File);
    part_if(images > 0, single_attachment_text(images, "image"@, true))
        + part_if(videos > 0, single_attachment_text(videos, "video"@, false))
        + part_if(audios > 0, single_attachment_text(audios, "audio file"@, true))
        + part_if(files > 0, single_attachment_text(files, "file"@, false))
        + part_if(num_links > 0, single_attachment_text(num_links, "link"@, false))
        + part_if(has_poll, "a poll"@)
        + part_if(has_reference, "a forwarded message"@)
}

/// Each phrase followed by `". "`.
pub open spec fn dotted(parts: Seq<Seq<char>>) -> Seq<char>
    decreases parts.len(),
{
    if parts.len() == 0 {
        Seq::empty()
    } else {
        dotted(parts.drop_last()) + parts.last() + ". "@
    }
}

/// The phrases joined: every phrase but the last ends with `". "`, and the last
/// is preceded by `" and "` when there is more than one.
pub open spec fn join_parts(parts: Seq<Seq<char>>) -> Seq<char> {
    if parts.len() == 0 {
        Seq::empty()
    } else if parts.len() == 1 {
        parts[0]
    } else {
        dotted(parts.drop_last()) + " and "@ + parts.last()
    }
}

/// The text read for a message's attachments and links.
pub open spec fn attachment_text(extras: MessageExtras, num_links: nat) -> Seq<char> {
    join_parts(
        attachment_parts(
            type_views(extras.attachment_types@),
            extras.has_poll,
            extras.has_reference,
            num_links,
        ),
    )
}

proof fn lemma_counts_cover(types: Seq<Option<Seq<char>>>)
    ensures
        count_kind(types, AttachmentKind::Image) + count_kind(types, AttachmentKind::Video)
            + count_kind(types, AttachmentKind::Audio) + count_kind(types, AttachmentKind::File)
            == types.len(),
    decreases types.len(),
{
    if types.len() > 0 {
        lemma_counts_cover(types.drop_last());
    }
}

proof fn lemma_dotted_len(parts: Seq<Seq<char>>)
    ensures
        dotted(parts).len() >= 2 * parts.len(),
    decreases parts.len(),
{
    reveal_strlit(". ");
    if parts.len() > 0 {
        lemma_dotted_len(parts.drop_last());
    }
}

/// The attachment description is empty exactly when the message has no
/// attachment, no link, no poll and no reference.
pub proof fn lemma_attachment_text_empty(extras: MessageExtras, num_links: nat)
    ensures
        attachment_text(extras, num_links).len() == 0 <==> (extras.attachment_types@.len() == 0
            && num_links == 0 && !extras.has_poll && !extras.has_reference),
{
    let types = type_views(extras.attachment_types@);
    lemma_counts_cover(types);
    let parts = attachment_parts(types, extras.has_poll, extras.has_reference, num_links);
    reveal_strlit("a poll");
    reveal_strlit("a forwarded message");
    reveal_strlit("an ");
    reveal_strlit("a ");
    reveal_strlit(" ");
    if parts.len() == 1 {
        assert(parts[0].len() > 0);
    } else if parts.len() > 1 {
        lemma_dotted_len(parts.drop_last());
    }
}

fn kind_of(content_type: &Option<String>) -> (k: AttachmentKind)
    ensures
        k == attachment_kind(opt_view(*content_type)),
{
    match content_type {
        Some(t) => {
            if starts_with(t.as_str(), "image/") {
                AttachmentKind::Image
            } else if starts_with(t.as_str(), "video/") {
                AttachmentKind::Video
            } else if starts_with(t.as_str(), "audio/") {
                AttachmentKind::Audio
            } else {
                AttachmentKind::File
            }
        },
        None => AttachmentKind::File,
    }
}

fn push_part(parts: &mut Vec<String>, cond: bool, part: String)
    ensures
        views(final(parts)@) == views(old(parts)@) + part_if(cond, part@),
{
    if cond {
        parts.push(part);
        assert(views(parts@) =~= views(old(parts)@) + part_if(cond, part@));
    } else {
        assert(views(parts@) =~= views(old(parts)@) + part_if(cond, part@));
    }
}

/// Describes a message's attachments, links, poll and forwarded message, as in
/// `"2 images.  and a link"`; empty when there is none of these.
pub fn make_attachment_text(extras: &MessageExtras, num_links: u32) -> (r: String)
    requires
        extras.attachment_types@.len() <= u32::MAX,
    ensures
        r@ == attachment_text(*extras, num_links as nat),
{
    let types = &extras.attachment_types;
    let ghost tv = type_views(types@);
    let mut num_files: u32 = 0;
    let mut num_images: u32 = 0;
    let mut num_audio: u32 = 0;
    let mut num_video: u32 = 0;
    let mut i: usize = 0;
    while i < types.len()
        invariant
            tv == type_views(types@),
            types@.len() <= u32::MAX,
            i <= types.len(),
            num_images == count_kind(tv.take(i as int), AttachmentKind::Image),
            num_video == count_kind(tv.take(i as int), AttachmentKind::Video),
            num_audio == count_kind(tv.take(i as int), AttachmentKind::Audio),
            num_files == count_kind(tv.take(i as int), AttachmentKind::File),
        decreases types.len() - i,
    {
        proof {
            assert(tv.take(i + 1).drop_last() =~= tv.take(i as int));
            assert(tv.take(i + 1).last() == opt_view(types@[i as int]));
            lemma_count_kind_bound(tv.take(i as int), AttachmentKind::Image);
            lemma_count_kind_bound(tv.take(i as int), AttachmentKind::Video);
            lemma_count_kind_bound(tv.take(i as int), AttachmentKind::Audio);
            lemma_count_kind_bound(tv.take(i as int), AttachmentKind::File);
        }
        match kind_of(&types[i]) {
            AttachmentKind::Image => num_images = num_images + 1,
            AttachmentKind::Video => num_video = num_video + 1,
            AttachmentKind::Audio => num_audio = num_audio + 1,
            AttachmentKind::File => num_files = num_files + 1,
        }
        i = i + 1;
    }
    assert(tv.take(types@.len() as int) =~= tv);
    let mut texts: Vec<String> = Vec::new();
    push_part(&mut texts, num_images > 0, make_single_attachment_text(num_images, "image", true));
    push_part(&mut texts, num_video > 0, make_single_attachment_text(num_video, "video", false));
    push_part(&mut texts, num_audio > 0, make_single_attachment_text(num_audio, "audio file", true));
    push_part(&mut texts, num_files > 0, make_single_attachment_text(num_files, "file", false));
    push_part(&mut texts, num_links > 0, make_single_attachment_text(num_links, "link", false));
    push_part(&mut texts, extras.has_poll, String::from_str("a poll"));
    push_part(&mut texts, extras.has_reference, String::from_str("a forwarded message"));
    let ghost parts = views(texts@);
    assert(parts =~= attachment_parts(tv, extras.has_poll, extras.has_reference, num_links as nat));
    let mut result = String::new();
    if texts.len() == 0 {
        return result;
    }
    let last = texts.len() - 1;
    let mut k: usize = 0;
    while k < last
        invariant
            parts == views(texts@),
            last + 1 == texts.len(),
            k <= last,
            result@ == dotted(parts.take(k as int)),
        decreases last - k,
    {
        push_str(&mut result, texts[k].as_str());
        push_str(&mut result, ". ");
        assert(parts.take(k + 1).drop_last() =~= parts.take(k as int));
        k = k + 1;
    }
    assert(parts.take(last as int) =~= parts.drop_last());
    if texts.len() > 1 {
        push_str(&mut result, " and ");
    }
    push_str(&mut result, texts[last].as_str());
    proof {
        if parts.len() == 1 {
            assert(parts.drop_last() =~= Seq::<Seq<char>>::empty());
            assert(result@ =~= parts[0]);
        }
    }
    result
}


/// The sentence spoken for a message, given the author who spoke last, the
/// cleaned message text, the author's name and the attachment description;
/// `None` when there is nothing to say.
pub open spec fn utterance(
    last_author: Option<Seq<char>>,
    content: Seq<char>,
    author: Seq<char>,
    attachments: Seq<char>,
) -> Option<Seq<char>> {
    if content.len() == 0 {
        if attachments.len() == 0 {
            None
        } else {
            Some(author + " sent "@ + attachments)
        }
    } else if attachments.len() == 0 {
        if last_author == Some(author) {
            Some(content)
        } else {
            Some(author + " said "@ + content)
        }
    } else {
        Some(author + " said "@ + content + " and sent "@ + attachments)
    }
}

/// Marks where the senders to each guild's speaking queue are kept in the bot's
/// shared data.
pub struct TTSSenders;

/// What a guild's speaking queue remembers between messages.
pub struct SpeakQueueState {
    /// The name of the author whose message was spoken last.
    pub last_author: Option<String>,
}

impl SpeakQueueState {
    pub fn new() -> (r: Self)
        ensures
            r.last_author is None,
    {
        SpeakQueueState { last_author: None }
    }

    /// The sentence to speak for the next message; the author is remembered
    /// whenever something is spoken.
    pub fn next_utterance(&mut self, content: String, author_name: String, attachment_text: String) -> (r: Option<String>)
        ensures
            opt_view(r) == utterance(opt_view(old(self).last_author), content@, author_name@, attachment_text@),
            final(self).last_author == (if r is Some { Some(author_name) } else { old(self).last_author }),
    {
        let spoken: String;
        if content.as_str().is_empty() {
            if attachment_text.as_str().is_empty() {
                return None;
            }
            let mut s = author_name.clone();
            push_str(&mut s, " sent ");
            push_str(&mut s, attachment_text.as_str());
            spoken = s;
        } else if attachment_text.as_str().is_empty() {
            let same = match &self.last_author {
                Some(last) => *last == author_name,
                None => false,
            };
            if same {
                spoken = content;
            } else {
                let mut s = author_name.clone();
                push_str(&mut s, " said ");
                push_str(&mut s, content.as_str());
                spoken = s;
            }
        } else {
            let mut s = author_name.clone();
            push_str(&mut s, " said ");
            push_str(&mut s, content.as_str());
            push_str(&mut s, " and sent ");
            push_str(&mut s, attachment_text.as_str());
            spoken = s;
        }
        self.last_author = Some(author_name);
        Some(spoken)
    }
}

/// Speaking one plain message after another by the same author names the
/// author only before the first.
pub proof fn lemma_same_author_named_once(
    last: Option<Seq<char>>,
    author: Seq<char>,
    first: Seq<char>,
    second: Seq<char>,
)
    requires
        first.len() > 0,
        second.len() > 0,
    ensures
        utterance(last, first, author, Seq::empty()) is Some,
        utterance(Some(author), second, author, Seq::empty()) == Some(second),
{
}

/// A message without text but with attachments is spoken as
/// `"{author} sent {attachments}"`, whoever spoke last: the author is always
/// named.
pub proof fn lemma_attachments_only_name_author(
    last: Option<Seq<char>>,
    author: Seq<char>,
    attachments: Seq<char>,
)
    requires
        attachments.len() > 0,
    ensures
        utterance(last, Seq::empty(), author, attachments) == Some(author + " sent "@ + attachments),
        utterance(last, Seq::empty(), author, attachments) == utterance(
            Some(author),
            Seq::empty(),
            author,
            attachments,
        ),
{
}

/// Whenever a message has attachments, or comes from someone other than the
/// last author, the spoken sentence begins with the author's name; the text
/// itself, when there is any, is always spoken in full at the end or before
/// `" and sent ..."`.
pub proof fn lemma_utterance_shape(
    last: Option<Seq<char>>,
    content: Seq<char>,
    author: Seq<char>,
    attachments: Seq<char>,
)
    ensures
        (attachments.len() > 0 || (content.len() > 0 && last != Some(author))) ==> (utterance(
            last,
            content,
            author,
            attachments,
        ) matches Some(u) && author.is_prefix_of(u)),
        content.len() > 0 && attachments.len() == 0 ==> (utterance(last, content, author, attachments)
            matches Some(u) && content.is_suffix_of(u)),
{
    let u = utterance(last, content, author, attachments);
    if attachments.len() > 0 || (content.len() > 0 && last != Some(author)) {
        let v = u->Some_0;
        if content.len() == 0 {
            assert(v.subrange(0, author.len() as int) =~= author);
        } else if attachments.len() == 0 {
            assert(v.subrange(0, author.len() as int) =~= author);
        } else {
            assert(v.subrange(0, author.len() as int) =~= author);
        }
    }
    if content.len() > 0 && attachments.len() == 0 {
        let v = u->Some_0;
        assert(v.subrange(v.len() - content.len(), v.len() as int) =~= content);
    }
}

/// A message without text, attachments, links, poll or reference is not spoken,
/// and every other message is.
pub proof fn lemma_silent_iff_empty(
    last: Option<Seq<char>>,
    content: Seq<char>,
    author: Seq<char>,
    attachments: Seq<char>,
)
    ensures
        utterance(last, content, author, attachments) is None <==> (content.len() == 0
            && attachments.len() == 0),
{
}

/// How the spoken name of an author is found.
pub enum AuthorNameStep {
    /// The name is known: the author's text-to-speech nickname.
    Known(String),
    /// The author's nickname in the guild has to be looked up.
    NeedGuildNickname,
}

/// The author's name, by priority: text-to-speech nickname, guild nickname,
/// global display name, user name.
pub open spec fn author_name(
    tts_nick: Option<Seq<char>>,
    guild_nick: Option<Seq<char>>,
    global_name: Option<Seq<char>>,
    username: Seq<char>,
) -> Seq<char> {
    match tts_nick {
        Some(n) => n,
        None => match guild_nick {
            Some(n) => n,
            None => match global_name {
                Some(n) => n,
                None => username,
            },
        },
    }
}

/// First step of finding an author's name: the text-to-speech nickname wins.
pub fn author_name_start(user: &TTSUser) -> (r: AuthorNameStep)
    ensures
        match r {
            AuthorNameStep::Known(n) => user.nick == Some(n),
            AuthorNameStep::NeedGuildNickname => user.nick is None,
        },
{
    match &user.nick {
        Some(n) => AuthorNameStep::Known(n.clone()),
        None => AuthorNameStep::NeedGuildNickname,
    }
}

/// Last step of finding an author's name, once the guild nickname lookup is
/// done (`None` when the lookup failed or there is no nickname).
pub fn author_name_finish(guild_nick: Option<String>, global_name: Option<String>, username: String) -> (r: String)
    ensures
        r@ == author_name(None, opt_view(guild_nick), opt_view(global_name), username@),
{
    match guild_nick {
        Some(n) => n,
        None => match global_name {
            Some(n) => n,
            None => username,
        },
    }
}


/// A piece of a text: either a link or the plain text between links.
pub struct TextSpan {
    pub text: String,
    pub is_link: bool,
}

pub open spec fn span_views(spans: Seq<TextSpan>) -> Seq<(Seq<char>, bool)> {
    spans.map_values(|s: TextSpan| (s.text@, s.is_link))
}

/// The spans into which linkify's default `LinkFinder` cuts a text.
pub uninterp spec fn link_spans(text: Seq<char>) -> Seq<(Seq<char>, bool)>;

/// The texts of the spans, concatenated.
pub open spec fn concat_spans(spans: Seq<(Seq<char>, bool)>) -> Seq<char>
    decreases spans.len(),
{
    if spans.len() == 0 {
        Seq::empty()
    } else {
        concat_spans(spans.drop_last()) + spans.last().0
    }
}

/// The texts of the spans that are not links, concatenated.
pub open spec fn plain_text(spans: Seq<(Seq<char>, bool)>) -> Seq<char>
    decreases spans.len(),
{
    if spans.len() == 0 {
        Seq::empty()
    } else {
        plain_text(spans.drop_last()) + if spans.last().1 {
            Seq::empty()
        } else {
            spans.last().0
        }
    }
}

/// How many of the spans are links.
pub open spec fn link_count(spans: Seq<(Seq<char>, bool)>) -> nat
    decreases spans.len(),
{
    if spans.len() == 0 {
        0
    } else {
        link_count(spans.drop_last()) + if spans.last().1 {
            1nat
        } else {
            0nat
        }
    }
}

/// Calls `linkify::LinkFinder::new().spans(text)`. Its documentation says the
/// spans are consecutive and together are the whole text; its source builds each
/// span from a non-empty byte range. Which parts are links is left to the name
/// `link_spans`.
#[verifier::external_body]
fn find_link_spans(text: &str) -> (r: Vec<TextSpan>)
    ensures
        span_views(r@) == link_spans(text@),
        concat_spans(span_views(r@)) == text@,
        forall|i: int| 0 <= i < r@.len() ==> #[trigger] r@[i].text@.len() > 0,
{
    linkify::LinkFinder::new()
        .spans(text)
        .map(|s| TextSpan { text: s.as_str().to_string(), is_link: s.kind().is_some() })
        .collect()
}

proof fn lemma_link_count_bound(spans: Seq<(Seq<char>, bool)>)
    requires
        forall|i: int| 0 <= i < spans.len() ==> #[trigger] spans[i].0.len() > 0,
    ensures
        link_count(spans) <= concat_spans(spans).len(),
    decreases spans.len(),
{
    if spans.len() > 0 {
        let init = spans.drop_last();
        assert forall|i: int| 0 <= i < init.len() implies #[trigger] init[i].0.len() > 0 by {
            assert(init[i] == spans[i]);
        }
        lemma_link_count_bound(init);
        assert(spans.last() == spans[spans.len() - 1]);
    }
}

/// A text in which linkify finds no link is its own plain text.
pub proof fn lemma_no_links_unchanged(spans: Seq<(Seq<char>, bool)>)
    requires
        link_count(spans) == 0,
    ensures
        plain_text(spans) == concat_spans(spans),
    decreases spans.len(),
{
    if spans.len() > 0 {
        lemma_no_links_unchanged(spans.drop_last());
    }
}

/// Removes the links from `text` and returns how many there were.
pub fn clean_links(text: &mut String) -> (num_links: u32)
    requires
        old(text)@.len() <= u32::MAX,
    ensures
        final(text)@ == plain_text(link_spans(old(text)@)),
        num_links == link_count(link_spans(old(text)@)),
        num_links == 0 ==> final(text)@ == old(text)@,
{
    let spans = find_link_spans(text.as_str());
    let ghost sv = span_views(spans@);
    proof {
        lemma_link_count_bound(sv);
    }
    let mut cleaned = String::new();
    let mut num_links: u32 = 0;
    let mut i: usize = 0;
    while i < spans.len()
        invariant
            sv == span_views(spans@),
            link_count(sv) <= u32::MAX,
            i <= spans.len(),
            cleaned@ == plain_text(sv.take(i as int)),
            num_links == link_count(sv.take(i as int)),
        decreases spans.len() - i,
    {
        proof {
            assert(sv.take(i + 1).drop_last() =~= sv.take(i as int));
            assert(sv.take(i + 1).last() == sv[i as int]);
            lemma_link_count_prefix(sv, i as int + 1);
        }
        if spans[i].is_link {
            num_links = num_links + 1;
        } else {
            push_str(&mut cleaned, spans[i].text.as_str());
        }
        i = i + 1;
    }
    assert(sv.take(sv.len() as int) =~= sv);
    proof {
        if num_links == 0 {
            lemma_no_links_unchanged(sv);
        }
    }
    *text = cleaned;
    num_links
}

proof fn lemma_link_count_prefix(spans: Seq<(Seq<char>, bool)>, n: int)
    requires
        0 <= n <= spans.len(),
    ensures
        link_count(spans.take(n)) <= link_count(spans),
    decreases spans.len(),
{
    if n < spans.len() {
        assert(spans.drop_last().take(n) =~= spans.take(n));
        lemma_link_count_prefix(spans.drop_last(), n);
    } else {
        assert(spans.take(n) =~= spans);
    }
}

} // verus!
