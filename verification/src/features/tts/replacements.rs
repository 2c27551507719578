//! Rewrites message text so that it reads well aloud: code blocks, spoilers and
//! emojis become short spoken phrases.

use vstd::prelude::*;
use crate::features::tts::queue::opt_view;
use crate::text::{push_str, views};

verus! {

/// The `regex` crate's compiled regular expression.
#[verifier::external_type_specification]
#[verifier::external_body]
pub struct ExRegex(regex::Regex);

/// The `regex` crate's error for a pattern that does not compile.
#[verifier::external_type_specification]
#[verifier::external_body]
pub struct ExRegexError(regex::Error);

/// Whether `regex::RegexBuilder` compiles the pattern, with `.` matching line
/// breaks or not.
pub uninterp spec fn regex_compiles(source: Seq<char>, dot_all: bool) -> bool;

/// The pieces of `text` between the matches of the pattern (`Regex::split`).
pub uninterp spec fn regex_split(source: Seq<char>, dot_all: bool, text: Seq<char>) -> Seq<Seq<char>>;

/// The capture groups of each match of the pattern in `text`
/// (`Regex::captures_iter`); group 0 is the whole match.
pub uninterp spec fn regex_captures(source: Seq<char>, dot_all: bool, text: Seq<char>) -> Seq<Seq<Option<Seq<char>>>>;

/// The official name of an emoji (`emojis::get(..).name()`), if the text is one.
pub uninterp spec fn emoji_name_of(s: Seq<char>) -> Option<Seq<char>>;

/// A compiled pattern together with the source and flag it was compiled from.
pub struct TextPattern {
    regex: regex::Regex,
    source: String,
    dot_all: bool,
}

impl View for TextPattern {
    type V = (Seq<char>, bool);

    closed spec fn view(&self) -> (Seq<char>, bool) {
        (self.source@, self.dot_all)
    }
}

pub open spec fn group_views(g: Seq<Option<String>>) -> Seq<Option<Seq<char>>> {
    g.map_values(|o: Option<String>| opt_view(o))
}

pub open spec fn capture_views(c: Seq<Vec<Option<String>>>) -> Seq<Seq<Option<Seq<char>>>> {
    c.map_values(|g: Vec<Option<String>>| group_views(g@))
}

/// The text of a capture group, empty when the group did not take part.
pub open spec fn group_text(groups: Seq<Option<Seq<char>>>, i: int) -> Seq<char> {
    if 0 <= i < groups.len() {
        match groups[i] {
            Some(t) => t,
            None => Seq::empty(),
        }
    } else {
        Seq::empty()
    }
}

/// The whole text of each match.
pub open spec fn whole_matches(caps: Seq<Seq<Option<Seq<char>>>>) -> Seq<Seq<char>> {
    caps.map_values(|g: Seq<Option<Seq<char>>>| group_text(g, 0))
}

/// `pieces[0] + seps[0] + pieces[1] + ... + seps[n-1] + pieces[n]`.
pub open spec fn interleave(pieces: Seq<Seq<char>>, seps: Seq<Seq<char>>) -> Seq<char>
    decreases seps.len(),
{
    if seps.len() == 0 {
        if pieces.len() > 0 {
            pieces[0]
        } else {
            Seq::empty()
        }
    } else {
        interleave(pieces.drop_last(), seps.drop_last()) + seps.last() + pieces.last()
    }
}

/// Calls `RegexBuilder::new(source).dot_matches_new_line(dot_all).build()`
/// (which is what `Regex::new` does when `dot_all` is false). Whether it
/// compiles is left to the name `regex_compiles`.
#[verifier::external_body]
fn compile_pattern(source: &str, dot_all: bool) -> (r: Result<TextPattern, regex::Error>)
    ensures
        r is Ok <==> regex_compiles(source@, dot_all),
        r matches Ok(p) ==> p@ == (source@, dot_all),
{
    match regex::RegexBuilder::new(source).dot_matches_new_line(dot_all).build() {
        Ok(regex) => Ok(TextPattern { regex, source: source.to_string(), dot_all }),
        Err(e) => Err(e),
    }
}

/// Calls `Regex::split`. Its source yields the text before each match (the
/// same matches as `captures_iter`) and then the rest, so there is one piece
/// more than there are matches, and the pieces with the matches between them
/// give back the text.
#[verifier::external_body]
fn split_around_matches(p: &TextPattern, text: &str) -> (r: Vec<String>)
    ensures
        views(r@) == regex_split(p@.0, p@.1, text@),
        r@.len() == regex_captures(p@.0, p@.1, text@).len() + 1,
        interleave(views(r@), whole_matches(regex_captures(p@.0, p@.1, text@))) == text@,
{
    p.regex.split(text).map(|s| s.to_string()).collect()
}

/// Calls `Regex::captures_iter` and reads every group of every match; group 0,
/// the whole match, is always present.
#[verifier::external_body]
fn match_captures(p: &TextPattern, text: &str) -> (r: Vec<Vec<Option<String>>>)
    ensures
        capture_views(r@) == regex_captures(p@.0, p@.1, text@),
        forall|i: int| 0 <= i < r@.len() ==> (#[trigger] r@[i])@.len() > 0 && r@[i]@[0] is Some,
{
    p.regex
        .captures_iter(text)
        .map(|c| c.iter().map(|m| m.map(|m| m.as_str().to_string())).collect())
        .collect()
}

/// Calls `emojis::get(s)` and reads the emoji's name.
#[verifier::external_body]
fn emoji_name(s: &str) -> (r: Option<String>)
    ensures
        opt_view(r) == emoji_name_of(s@),
{
    emojis::get(s).map(|e| e.name().to_string())
}

/// How a match is replaced.
pub enum Rewrite {
    /// By a fixed text.
    Literal(&'static str),
    /// `<name:id>` or `<a:name:id>` by `" name emoji "` or `" name animated emoji "`.
    DiscordEmoji,
    /// An emoji character by `" name emoji "`, or kept when it has no name.
    UnicodeEmoji,
}

/// The phrase for a custom Discord emoji: group 1 is `a` for an animated one,
/// group 2 is the emoji's name.
pub open spec fn discord_emoji_phrase(groups: Seq<Option<Seq<char>>>) -> Seq<char> {
    " "@ + group_text(groups, 2) + " "@ + (if group_text(groups, 1).len() == 0 {
        "emoji"@
    } else {
        "animated emoji"@
    }) + " "@
}

/// The phrase for an emoji character.
pub open spec fn unicode_emoji_phrase(groups: Seq<Option<Seq<char>>>) -> Seq<char> {
    match emoji_name_of(group_text(groups, 0)) {
        Some(name) => " "@ + name + " emoji "@,
        None => group_text(groups, 0),
    }
}

pub open spec fn rewrite_of(rw: Rewrite, groups: Seq<Option<Seq<char>>>) -> Seq<char> {
    match rw {
        Rewrite::Literal(t) => t@,
        Rewrite::DiscordEmoji => discord_emoji_phrase(groups),
        Rewrite::UnicodeEmoji => unicode_emoji_phrase(groups),
    }
}

/// Every match of the pattern in `text` replaced as `rw` says (`Regex::replace_all`).
pub open spec fn replace_all(p: (Seq<char>, bool), text: Seq<char>, rw: Rewrite) -> Seq<char> {
    interleave(regex_split(p.0, p.1, text), rewrites(regex_captures(p.0, p.1, text), rw))
}

/// The replacement for each match.
pub open spec fn rewrites(caps: Seq<Seq<Option<Seq<char>>>>, rw: Rewrite) -> Seq<Seq<char>> {
    caps.map_values(|g: Seq<Option<Seq<char>>>| rewrite_of(rw, g))
}

fn group_str(groups: &Vec<Option<String>>, i: usize) -> (r: &str)
    ensures
        r@ == group_text(group_views(groups@), i as int),
{
    proof {
        reveal_strlit("");
    }
    if i < groups.len() {
        assert(group_views(groups@)[i as int] == opt_view(groups@[i as int]));
        match &groups[i] {
            Some(t) => t.as_str(),
            None => "",
        }
    } else {
        ""
    }
}

fn rewrite_match(rw: &Rewrite, groups: &Vec<Option<String>>) -> (r: String)
    ensures
        r@ == rewrite_of(*rw, group_views(groups@)),
{
    let mut s = String::new();
    match rw {
        Rewrite::Literal(t) => {
            push_str(&mut s, t);
        },
        Rewrite::DiscordEmoji => {
            push_str(&mut s, " ");
            push_str(&mut s, group_str(groups, 2));
            push_str(&mut s, " ");
            if group_str(groups, 1).is_empty() {
                push_str(&mut s, "emoji");
            } else {
                push_str(&mut s, "animated emoji");
            }
            push_str(&mut s, " ");
        },
        Rewrite::UnicodeEmoji => {
            let whole = group_str(groups, 0);
            match emoji_name(whole) {
                Some(name) => {
                    push_str(&mut s, " ");
                    push_str(&mut s, name.as_str());
                    push_str(&mut s, " emoji ");
                },
                None => {
                    push_str(&mut s, whole);
                },
            }
        },
    }
    s
}

/// Replaces every match of `p` in `text` as `rw` says.
pub fn replace_matches(p: &TextPattern, text: &str, rw: &Rewrite) -> (r: String)
    ensures
        r@ == replace_all(p@, text@, *rw),
        regex_captures(p@.0, p@.1, text@).len() == 0 ==> r@ == text@,
        rewrites(regex_captures(p@.0, p@.1, text@), *rw) == whole_matches(
            regex_captures(p@.0, p@.1, text@),
        ) ==> r@ == text@,
{
    let pieces = split_around_matches(p, text);
    let caps = match_captures(p, text);
    let ghost pv = views(pieces@);
    let ghost reps = rewrites(regex_captures(p@.0, p@.1, text@), *rw);
    let mut result = String::new();
    push_str(&mut result, pieces[0].as_str());
    assert(reps.take(0) =~= Seq::<Seq<char>>::empty());
    let mut i: usize = 0;
    while i < caps.len()
        invariant
            pv == views(pieces@),
            pieces@.len() == caps@.len() + 1,
            capture_views(caps@) == regex_captures(p@.0, p@.1, text@),
            reps == rewrites(regex_captures(p@.0, p@.1, text@), *rw),
            i <= caps.len(),
            result@ == interleave(pv.take(i + 1), reps.take(i as int)),
        decreases caps.len() - i,
    {
        let rep = rewrite_match(rw, &caps[i]);
        assert(capture_views(caps@)[i as int] == group_views(caps@[i as int]@));
        assert(rep@ == reps[i as int]);
        push_str(&mut result, rep.as_str());
        push_str(&mut result, pieces[i + 1].as_str());
        proof {
            assert(pv.take(i + 2).drop_last() =~= pv.take(i + 1));
            assert(reps.take(i + 1).drop_last() =~= reps.take(i as int));
            assert(pv.take(i + 2).last() == pieces@[i + 1]@);
            assert(reps.take(i + 1).last() == reps[i as int]);
        }
        i = i + 1;
    }
    assert(pv.take(caps@.len() as int + 1) =~= pv);
    assert(reps.take(caps@.len() as int) =~= reps);
    result
}

/// An emoji character without a name is read as it is; one with a name is read
/// as `" {name} emoji "`.
pub proof fn lemma_unicode_emoji_rewrite(groups: Seq<Option<Seq<char>>>)
    ensures
        emoji_name_of(group_text(groups, 0)) is None ==> rewrite_of(Rewrite::UnicodeEmoji, groups)
            == group_text(groups, 0),
        emoji_name_of(group_text(groups, 0)) matches Some(name) ==> rewrite_of(
            Rewrite::UnicodeEmoji,
            groups,
        ) == " "@ + name + " emoji "@,
{
}

/// When no match of the emoji pattern is a named emoji, every match is
/// replaced by itself: the emoji pass then gives back its text unchanged
/// (see `replace_matches`).
pub proof fn lemma_unnamed_emojis_kept(caps: Seq<Seq<Option<Seq<char>>>>)
    requires
        forall|i: int| 0 <= i < caps.len() ==> emoji_name_of(#[trigger] group_text(caps[i], 0)) is None,
    ensures
        rewrites(caps, Rewrite::UnicodeEmoji) == whole_matches(caps),
{
    assert forall|i: int| 0 <= i < caps.len() implies #[trigger] rewrites(caps, Rewrite::UnicodeEmoji)[i]
        == whole_matches(caps)[i] by {
        lemma_unicode_emoji_rewrite(caps[i]);
    }
    assert(rewrites(caps, Rewrite::UnicodeEmoji) =~= whole_matches(caps));
}


/// Code blocks fenced by three backticks.
pub const CODE_BLOCK: &'static str = "```(.*?)```";
/// Inline code between single backticks.
pub const INLINE_CODE: &'static str = "`(.*?)`";
/// Spoilers between double bars.
pub const SPOILER: &'static str = "\\|\\|(.*?)\\|\\|";
/// A custom Discord emoji, `<name:id>` or `<a:name:id>`.
pub const DISCORD_EMOJI: &'static str = "<(a?):(.*?):\\d+>";
/// A single emoji character.
pub const UNICODE_EMOJI: &'static str = "\\p{Emoji}";

/// The fixed replacements, in the order they are applied: code blocks, inline
/// code, spoilers. `.` also matches line breaks in these patterns.
pub fn get_replacements() -> (r: Result<[(TextPattern, &'static str); 3], regex::Error>)
    ensures
        r is Ok <==> (regex_compiles(CODE_BLOCK@, true) && regex_compiles(INLINE_CODE@, true)
            && regex_compiles(SPOILER@, true)),
        r matches Ok(a) ==> {
            &&& a[0].0@ == (CODE_BLOCK@, true)
            &&& a[0].1 == " |code block| "
            &&& a[1].0@ == (INLINE_CODE@, true)
            &&& a[1].1 == " |code block|"
            &&& a[2].0@ == (SPOILER@, true)
            &&& a[2].1 == " |spoilers| "
        },
{
    let code_block = match compile_pattern(CODE_BLOCK, true) {
        Ok(p) => p,
        Err(e) => return Err(e),
    };
    let inline_code = match compile_pattern(INLINE_CODE, true) {
        Ok(p) => p,
        Err(e) => return Err(e),
    };
    let spoiler = match compile_pattern(SPOILER, true) {
        Ok(p) => p,
        Err(e) => return Err(e),
    };
    Ok([(code_block, " |code block| "), (inline_code, " |code block|"), (spoiler, " |spoilers| ")])
}

/// The compiled rewrites applied to a message before it is spoken.
pub struct TTSReplacements {
    pub replacements: [(TextPattern, &'static str); 3],
    pub emoji_capture: TextPattern,
    pub unicode_emoji: TextPattern,
}

/// The text after the fixed replacements.
pub open spec fn after_fixed(r: TTSReplacements, text: Seq<char>) -> Seq<char> {
    let t1 = replace_all(r.replacements[0].0@, text, Rewrite::Literal(r.replacements[0].1));
    let t2 = replace_all(r.replacements[1].0@, t1, Rewrite::Literal(r.replacements[1].1));
    replace_all(r.replacements[2].0@, t2, Rewrite::Literal(r.replacements[2].1))
}

/// Whether no match of the pattern in `text` is a named emoji.
pub open spec fn no_named_emoji(p: (Seq<char>, bool), text: Seq<char>) -> bool {
    let caps = regex_captures(p.0, p.1, text);
    forall|i: int| 0 <= i < caps.len() ==> emoji_name_of(#[trigger] group_text(caps[i], 0)) is None
}

/// The text after every rewrite: fixed replacements, custom emojis, emoji characters.
pub open spec fn processed(r: TTSReplacements, text: Seq<char>) -> Seq<char> {
    let t = after_fixed(r, text);
    let t2 = replace_all(r.emoji_capture@, t, Rewrite::DiscordEmoji);
    replace_all(r.unicode_emoji@, t2, Rewrite::UnicodeEmoji)
}

impl TTSReplacements {
    /// Compiles all patterns; fails if one of them does not compile.
    pub fn new() -> (r: Result<Self, regex::Error>)
        ensures
            r is Ok <==> (regex_compiles(CODE_BLOCK@, true) && regex_compiles(INLINE_CODE@, true)
                && regex_compiles(SPOILER@, true) && regex_compiles(DISCORD_EMOJI@, false)
                && regex_compiles(UNICODE_EMOJI@, false)),
            r matches Ok(t) ==> {
                &&& t.replacements[0].0@ == (CODE_BLOCK@, true)
                &&& t.replacements[0].1 == " |code block| "
                &&& t.replacements[1].0@ == (INLINE_CODE@, true)
                &&& t.replacements[1].1 == " |code block|"
                &&& t.replacements[2].0@ == (SPOILER@, true)
                &&& t.replacements[2].1 == " |spoilers| "
                &&& t.emoji_capture@ == (DISCORD_EMOJI@, false)
                &&& t.unicode_emoji@ == (UNICODE_EMOJI@, false)
            },
    {
        let replacements = match get_replacements() {
            Ok(a) => a,
            Err(e) => return Err(e),
        };
        let emoji_capture = match compile_pattern(DISCORD_EMOJI, false) {
            Ok(p) => p,
            Err(e) => return Err(e),
        };
        let unicode_emoji = match compile_pattern(UNICODE_EMOJI, false) {
            Ok(p) => p,
            Err(e) => return Err(e),
        };
        Ok(TTSReplacements { replacements, emoji_capture, unicode_emoji })
    }

    /// Applies every rewrite to `text`.
    pub fn process_string(&self, text: &mut String)
        ensures
            final(text)@ == processed(*self, old(text)@),
            ({
                let t = replace_all(self.emoji_capture@, after_fixed(*self, old(text)@), Rewrite::DiscordEmoji);
                no_named_emoji(self.unicode_emoji@, t) ==> final(text)@ == t
            }),
    {
        self.run_replacements(text);
        self.process_discord_emojis(text);
        self.process_unicode_emojis(text);
    }

    fn run_replacements(&self, text: &mut String)
        ensures
            final(text)@ == after_fixed(*self, old(text)@),
    {
        let mut k: usize = 0;
        let ghost start = text@;
        while k < 3
            invariant
                k <= 3,
                k == 0 ==> text@ == start,
                k == 1 ==> text@ == replace_all(self.replacements[0].0@, start,
                    Rewrite::Literal(self.replacements[0].1)),
                k == 2 ==> text@ == replace_all(self.replacements[1].0@,
                    replace_all(self.replacements[0].0@, start, Rewrite::Literal(self.replacements[0].1)),
                    Rewrite::Literal(self.replacements[1].1)),
                k == 3 ==> text@ == after_fixed(*self, start),
            decreases 3 - k,
        {
            let rw = Rewrite::Literal(self.replacements[k].1);
            *text = replace_matches(&self.replacements[k].0, text.as_str(), &rw);
            k = k + 1;
        }
    }

    fn process_discord_emojis(&self, text: &mut String)
        ensures
            final(text)@ == replace_all(self.emoji_capture@, old(text)@, Rewrite::DiscordEmoji),
    {
        *text = replace_matches(&self.emoji_capture, text.as_str(), &Rewrite::DiscordEmoji);
    }

    fn process_unicode_emojis(&self, text: &mut String)
        ensures
            final(text)@ == replace_all(self.unicode_emoji@, old(text)@, Rewrite::UnicodeEmoji),
            no_named_emoji(self.unicode_emoji@, old(text)@) ==> final(text)@ == old(text)@,
    {
        let ghost t = text@;
        proof {
            if no_named_emoji(self.unicode_emoji@, t) {
                lemma_unnamed_emojis_kept(regex_captures(self.unicode_emoji@.0, self.unicode_emoji@.1, t));
            }
        }
        *text = replace_matches(&self.unicode_emoji, text.as_str(), &Rewrite::UnicodeEmoji);
    }
}

} // verus!
