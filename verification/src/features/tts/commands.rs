//! The slash commands: what they answer and what they do.

use vstd::prelude::*;
use crate::features::tts::piper::GetSpeakers;
use crate::text::{
    contains_string, decimal, lex_order, lowercase, push_decimal, push_str, sort_strings,
    to_lowercase, views,
};

verus! {

/// What a voice-channel command does.
pub enum VcCommandOutcome {
    /// Answer with this text and do nothing else.
    Reply(&'static str),
    /// Join this voice channel, then answer `":thumbsup:"`.
    Join(u64),
    /// Leave the voice channel, then answer `":thumbsup:"`.
    Leave,
    /// Answer `":thumbsup:"`, then skip the message being read.
    SkipCurrent,
    /// Answer `":thumbsup:"`, then drop every queued message.
    StopAll,
}

/// `/join`: `author_channel` is the voice channel of the user, `bot_channel`
/// the one the bot is in.
pub fn join_outcome(author_channel: Option<u64>, bot_channel: Option<u64>) -> (r: VcCommandOutcome)
    ensures
        r == match (author_channel, bot_channel) {
            (None, _) => VcCommandOutcome::Reply("You are not in a VC"),
            (Some(a), Some(b)) => if a != b {
                VcCommandOutcome::Reply("I'm currently in a VC")
            } else {
                VcCommandOutcome::Reply("I'm already in that VC")
            },
            (Some(a), None) => VcCommandOutcome::Join(a),
        },
{
    match author_channel {
        None => VcCommandOutcome::Reply("You are not in a VC"),
        Some(a) => match bot_channel {
            Some(b) => if a != b {
                VcCommandOutcome::Reply("I'm currently in a VC")
            } else {
                VcCommandOutcome::Reply("I'm already in that VC")
            },
            None => VcCommandOutcome::Join(a),
        },
    }
}

/// `/leave`: `bot_handle` is `None` when the bot has no voice connection in the
/// guild, and otherwise holds the channel it is in, if any.
pub fn leave_outcome(bot_handle: Option<Option<u64>>, author_channel: Option<u64>) -> (r: VcCommandOutcome)
    ensures
        r == match (bot_handle, author_channel) {
            (None, _) => VcCommandOutcome::Reply("I'm not in a vc"),
            (Some(_), None) => VcCommandOutcome::Reply("You are not in the same VC as me"),
            (Some(b), Some(a)) => if b == Some(a) {
                VcCommandOutcome::Leave
            } else {
                VcCommandOutcome::Reply("You are not in the same VC as the bot")
            },
        },
{
    match bot_handle {
        None => VcCommandOutcome::Reply("I'm not in a vc"),
        Some(b) => match author_channel {
            None => VcCommandOutcome::Reply("You are not in the same VC as me"),
            Some(a) => {
                let same = match b {
                    Some(c) => c == a,
                    None => false,
                };
                if same {
                    VcCommandOutcome::Leave
                } else {
                    VcCommandOutcome::Reply("You are not in the same VC as the bot")
                }
            },
        },
    }
}

/// Which messages `/stop` stops.
pub enum StopChoice {
    /// The message being read (the default).
    Current,
    /// Every queued message.
    All,
}

/// `/stop`, with the same inputs as `leave_outcome`.
pub fn stop_outcome(bot_handle: Option<Option<u64>>, author_channel: Option<u64>, choice: StopChoice) -> (r: VcCommandOutcome)
    ensures
        r == match (bot_handle, author_channel) {
            (None, _) => VcCommandOutcome::Reply("I'm not in a vc"),
            (Some(_), None) => VcCommandOutcome::Reply("You are not in the same VC as me"),
            (Some(b), Some(a)) => if b == Some(a) {
                match choice {
                    StopChoice::Current => VcCommandOutcome::SkipCurrent,
                    StopChoice::All => VcCommandOutcome::StopAll,
                }
            } else {
                VcCommandOutcome::Reply("we are not in the same vc")
            },
        },
{
    match bot_handle {
        None => VcCommandOutcome::Reply("I'm not in a vc"),
        Some(b) => match author_channel {
            None => VcCommandOutcome::Reply("You are not in the same VC as me"),
            Some(a) => {
                let same = match b {
                    Some(c) => c == a,
                    None => false,
                };
                if same {
                    match choice {
                        StopChoice::Current => VcCommandOutcome::SkipCurrent,
                        StopChoice::All => VcCommandOutcome::StopAll,
                    }
                } else {
                    VcCommandOutcome::Reply("we are not in the same vc")
                }
            },
        },
    }
}

/// The answer when a chosen model or speaker is not offered by the server.
pub open spec fn rejects_choice(choice: Option<Seq<char>>, offered: Seq<Seq<char>>) -> bool {
    match choice {
        Some(c) => !offered.contains(c),
        None => false,
    }
}

/// Whether the chosen value must be refused: a value the server does not
/// offer; resetting to the default (`None`) is always accepted.
pub fn is_rejected_choice(choice: &Option<String>, offered: &Vec<String>) -> (r: bool)
    ensures
        r == rejects_choice(crate::features::tts::queue::opt_view(*choice), views(offered@)),
{
    match choice {
        Some(c) => !contains_string(offered, c.as_str()),
        None => false,
    }
}

/// `":thumbsup: Your {what} is now {value}."`, or `"... is now the default."`.
pub open spec fn setting_reply(what: Seq<char>, value: Option<Seq<char>>) -> Seq<char> {
    match value {
        Some(v) => ":thumbsup: Your "@ + what + " is now "@ + v + "."@,
        None => ":thumbsup: Your "@ + what + " is now the default."@,
    }
}

fn make_setting_reply(what: &str, value: &Option<String>) -> (r: String)
    ensures
        r@ == setting_reply(what@, crate::features::tts::queue::opt_view(*value)),
{
    let mut s = String::new();
    push_str(&mut s, ":thumbsup: Your ");
    push_str(&mut s, what);
    match value {
        Some(v) => {
            push_str(&mut s, " is now ");
            push_str(&mut s, v.as_str());
            push_str(&mut s, ".");
        },
        None => {
            push_str(&mut s, " is now the default.");
        },
    }
    s
}

/// The answer of `/set_model` once the model is saved.
pub fn model_set_reply(model: &Option<String>) -> (r: String)
    ensures
        r@ == setting_reply("model"@, crate::features::tts::queue::opt_view(*model)),
{
    make_setting_reply("model", model)
}

/// The answer of `/set_speaker` once the speaker is saved.
pub fn speaker_set_reply(speaker: &Option<String>) -> (r: String)
    ensures
        r@ == setting_reply("speaker"@, crate::features::tts::queue::opt_view(*speaker)),
{
    make_setting_reply("speaker", speaker)
}

/// The options whose lowercase form begins with `partial`, in their order.
pub open spec fn matching_options(options: Seq<Seq<char>>, partial: Seq<char>) -> Seq<Seq<char>>
    decreases options.len(),
{
    if options.len() == 0 {
        Seq::empty()
    } else {
        let rest = matching_options(options.drop_last(), partial);
        if partial.is_prefix_of(lowercase(options.last())) {
            rest.push(options.last())
        } else {
            rest
        }
    }
}

/// An option is offered exactly when what was typed begins its lowercase form
/// (the two may be equal), and nothing else is offered.
pub proof fn lemma_matching_options_members(options: Seq<Seq<char>>, partial: Seq<char>, o: Seq<char>)
    ensures
        matching_options(options, partial).contains(o) <==> (options.contains(o)
            && partial.is_prefix_of(lowercase(o))),
    decreases options.len(),
{
    if options.len() > 0 {
        let init = options.drop_last();
        lemma_matching_options_members(init, partial, o);
        assert(options =~= init.push(options.last()));
        if options.contains(o) && o != options.last() {
            let k = choose|k: int| 0 <= k < options.len() && options[k] == o;
            assert(init[k] == o);
        }
        if init.contains(o) {
            let k = choose|k: int| 0 <= k < init.len() && init[k] == o;
            assert(options[k] == o);
        }
        let rest = matching_options(init, partial);
        if partial.is_prefix_of(lowercase(options.last())) {
            assert(rest.push(options.last())[rest.len() as int] == options.last());
            if rest.push(options.last()).contains(o) && o != options.last() {
                let k = choose|k: int| 0 <= k < rest.len() + 1 && rest.push(options.last())[k] == o;
                assert(rest[k] == o);
            }
            if rest.contains(o) {
                let k = choose|k: int| 0 <= k < rest.len() && rest[k] == o;
                assert(rest.push(options.last())[k] == o);
            }
        }
    }
}

/// The autocompletion offered for `partial`: the matching options, sorted.
pub fn autocomplete_choices(options: &Vec<String>, partial: &str) -> (r: Vec<String>)
    ensures
        views(r@) == matching_options(views(options@), partial@).sort_by(lex_order()),
        vstd::relations::sorted_by(views(r@), lex_order()),
        forall|o: Seq<char>|
            #![trigger views(r@).contains(o)]
            #![trigger lowercase(o)]
            views(r@).contains(o) <==> (views(options@).contains(o) && partial@.is_prefix_of(
                lowercase(o),
            )),
{
    let mut found: Vec<String> = Vec::new();
    let mut i: usize = 0;
    while i < options.len()
        invariant
            i <= options.len(),
            views(found@) == matching_options(views(options@).take(i as int), partial@),
        decreases options.len() - i,
    {
        let lower = to_lowercase(options[i].as_str());
        proof {
            assert(views(options@).take(i + 1).drop_last() =~= views(options@).take(i as int));
            assert(views(options@).take(i + 1).last() == options@[i as int]@);
        }
        if crate::text::starts_with(lower.as_str(), partial) {
            found.push(options[i].clone());
            assert(views(found@) =~= matching_options(views(options@).take(i as int), partial@).push(options@[i as int]@));
        }
        i = i + 1;
    }
    assert(views(options@).take(options@.len() as int) =~= views(options@));
    let r = sort_strings(found);
    proof {
        assert forall|o: Seq<char>|
            #![trigger views(r@).contains(o)]
            #![trigger lowercase(o)]
            views(r@).contains(o) <==> (views(options@).contains(o) && partial@.is_prefix_of(
                lowercase(o),
            )) by {
            lemma_matching_options_members(views(options@), partial@, o);
            vstd::seq_lib::to_multiset_contains(views(r@), o);
            vstd::seq_lib::to_multiset_contains(views(found@), o);
        }
    }
    r
}


/// How many entries a list page shows.
pub const PAGE_SIZE: usize = 10;

/// The text above the model list.
pub const MODELS_HEADER: &'static str = "[You can hear demos of the models here!](https://rhasspy.github.io/piper-samples/) If you want a model added, tell my owner!\n\n";

/// One page of a paged list, and the pages its buttons lead to.
pub struct ListPage {
    pub title: String,
    pub description: String,
    pub prev_page: i32,
    pub next_page: i32,
}

/// `"- {entry}\n"` for each entry.
pub open spec fn list_lines(entries: Seq<Seq<char>>) -> Seq<char>
    decreases entries.len(),
{
    if entries.len() == 0 {
        Seq::empty()
    } else {
        list_lines(entries.drop_last()) + "- "@ + entries.last() + "\n"@
    }
}

/// The number of pages for `len` entries.
pub open spec fn page_count(len: nat) -> nat {
    (len + PAGE_SIZE - 1) as nat / PAGE_SIZE as nat
}

/// The entries shown on page `page` of the sorted list.
pub open spec fn page_entries(sorted: Seq<Seq<char>>, page: nat) -> Seq<Seq<char>> {
    let start = page * PAGE_SIZE;
    let end = if start + PAGE_SIZE < sorted.len() { start + PAGE_SIZE } else { sorted.len() as int };
    if start < sorted.len() {
        sorted.subrange(start as int, end)
    } else {
        Seq::empty()
    }
}

/// The page shown for a requested page number: it wraps around both ends.
pub open spec fn wrapped_page(page: int, total: nat) -> nat {
    (page % (total as int)) as nat
}

/// Euclidean remainder of `page` by `total` (`i32::rem_euclid`).
fn wrap_page(page: i32, total: usize) -> (r: usize)
    requires
        0 < total <= i32::MAX,
    ensures
        r == wrapped_page(page as int, total as nat),
        r < total,
{
    let t = total as i64;
    let p = page as i64;
    if p >= 0 {
        (p % t) as usize
    } else {
        let m = (-p) % t;
        proof {
            let pi = p as int;
            let ti = t as int;
            let mi = m as int;
            assert(mi == (-pi) % ti);
            assert(pi % ti == if mi == 0 { 0 } else { ti - mi }) by (nonlinear_arith)
                requires
                    pi < 0,
                    ti > 0,
                    mi == (-pi) % ti,
            {
                let q = (-pi) / ti;
                assert(-pi == q * ti + mi);
                assert(pi == (-q) * ti - mi);
                if mi != 0 {
                    assert(pi == (-q - 1) * ti + (ti - mi));
                }
            }
        }
        if m == 0 {
            0
        } else {
            (t - m) as usize
        }
    }
}

fn push_lines(s: &mut String, sorted: &Vec<String>, page: usize)
    requires
        page * PAGE_SIZE <= usize::MAX,
    ensures
        final(s)@ == old(s)@ + list_lines(page_entries(views(sorted@), page as nat)),
{
    let start = page * PAGE_SIZE;
    if start >= sorted.len() {
        assert(page_entries(views(sorted@), page as nat) =~= Seq::<Seq<char>>::empty());
        return;
    }
    let end = if sorted.len() - start > PAGE_SIZE { start + PAGE_SIZE } else { sorted.len() };
    let ghost entries = page_entries(views(sorted@), page as nat);
    assert(entries =~= views(sorted@).subrange(start as int, end as int));
    let ghost s0 = s@;
    let mut i = start;
    while i < end
        invariant
            start <= i <= end,
            end <= sorted.len(),
            entries == views(sorted@).subrange(start as int, end as int),
            s@ == s0 + list_lines(entries.take(i - start)),
        decreases end - i,
    {
        push_str(s, "- ");
        push_str(s, sorted[i].as_str());
        push_str(s, "\n");
        proof {
            assert(entries.take(i - start + 1).drop_last() =~= entries.take(i - start));
            assert(entries.take(i - start + 1).last() == sorted@[i as int]@);
        }
        i = i + 1;
    }
    assert(entries.take(end - start) =~= entries);
}

/// `"{name} ({shown}/{total})"`.
pub open spec fn page_title(name: Seq<char>, shown: nat, total: nat) -> Seq<char> {
    name + " ("@ + decimal(shown) + "/"@ + decimal(total) + ")"@
}

fn make_title(name: &str, shown: usize, total: usize) -> (r: String)
    ensures
        r@ == page_title(name@, shown as nat, total as nat),
{
    let mut s = String::new();
    push_str(&mut s, name);
    push_str(&mut s, " (");
    push_decimal(&mut s, shown as u64);
    push_str(&mut s, "/");
    push_decimal(&mut s, total as u64);
    push_str(&mut s, ")");
    s
}

/// The page of the model list for a requested page number: models sorted, ten
/// per page, the page number wrapping around.
pub open spec fn models_page(models: Seq<Seq<char>>, page: int) -> (Seq<char>, Seq<char>, int, int) {
    let total = page_count(models.len());
    let shown = wrapped_page(page, total);
    (
        page_title("Model List"@, shown + 1, total),
        MODELS_HEADER@ + list_lines(page_entries(models.sort_by(lex_order()), shown)),
        shown - 1,
        (shown + 1) as int,
    )
}

pub open spec fn page_view(p: ListPage) -> (Seq<char>, Seq<char>, int, int) {
    (p.title@, p.description@, p.prev_page as int, p.next_page as int)
}

/// Asking for page `page` or for `page` plus the number of pages shows the
/// same page, with the same buttons.
pub proof fn lemma_model_page_wraps(models: Seq<Seq<char>>, page: int)
    requires
        models.len() > 0,
    ensures
        models_page(models, page) == models_page(models, page + page_count(models.len())),
{
    let t = page_count(models.len()) as int;
    assert(t > 0);
    assert(page % t == (page + t) % t) by (nonlinear_arith)
        requires
            t > 0,
    {
        vstd::arithmetic::div_mod::lemma_mod_add_multiples_vanish(page, t);
    }
}

/// The ◀ and ▶ buttons of a model page lead to the page before and the page
/// after the one shown, wrapping around at both ends.
pub proof fn lemma_model_buttons_step(models: Seq<Seq<char>>, page: int)
    requires
        models.len() > 0,
    ensures
        wrapped_page(models_page(models, page).2, page_count(models.len())) == (wrapped_page(
            page,
            page_count(models.len()),
        ) + page_count(models.len()) - 1) % (page_count(models.len()) as int),
        wrapped_page(models_page(models, page).3, page_count(models.len())) == ((wrapped_page(
            page,
            page_count(models.len()),
        ) + 1) as int) % (page_count(models.len()) as int),
{
    let t = page_count(models.len()) as int;
    assert(t > 0);
    let shown = wrapped_page(page, t as nat) as int;
    assert(0 <= shown < t);
    vstd::arithmetic::div_mod::lemma_mod_add_multiples_vanish(shown - 1, t);
    assert(models_page(models, page).2 == shown - 1);
    assert(models_page(models, page).3 == shown + 1);
}

/// The entries of pages `0` to `n - 1`, in page order.
pub open spec fn pages_up_to(sorted: Seq<Seq<char>>, n: nat) -> Seq<Seq<char>>
    decreases n,
{
    if n == 0 {
        Seq::empty()
    } else {
        pages_up_to(sorted, (n - 1) as nat) + page_entries(sorted, (n - 1) as nat)
    }
}

proof fn lemma_pages_up_to(sorted: Seq<Seq<char>>, n: nat)
    requires
        n * PAGE_SIZE <= sorted.len(),
    ensures
        pages_up_to(sorted, n) == sorted.take(n * PAGE_SIZE),
    decreases n,
{
    if n > 0 {
        lemma_pages_up_to(sorted, (n - 1) as nat);
        assert(sorted.take(n * PAGE_SIZE) =~= sorted.take((n - 1) * PAGE_SIZE) + sorted.subrange(
            (n - 1) * PAGE_SIZE,
            n * PAGE_SIZE,
        ));
    }
}

/// Read page after page, the list shows every entry once, in sorted order.
pub proof fn lemma_pages_cover_list(entries: Seq<Seq<char>>)
    ensures
        pages_up_to(entries.sort_by(lex_order()), page_count(entries.len()))
            == entries.sort_by(lex_order()),
{
    let sorted = entries.sort_by(lex_order());
    crate::text::lemma_lex_total_ordering();
    entries.lemma_sort_by_ensures(lex_order());
    vstd::seq_lib::to_multiset_len(entries);
    vstd::seq_lib::to_multiset_len(sorted);
    let n = page_count(entries.len());
    if n > 0 {
        let full = (n - 1) as nat;
        assert(full * PAGE_SIZE < sorted.len() <= n * PAGE_SIZE) by (nonlinear_arith)
            requires
                n == (sorted.len() + 9) / 10,
                n > 0,
                full == n - 1,
        {
        }
        lemma_pages_up_to(sorted, full);
        assert(sorted =~= sorted.take(full * PAGE_SIZE) + sorted.subrange(full * PAGE_SIZE as int, sorted.len() as int));
    } else {
        assert(sorted.len() == 0);
        assert(sorted =~= Seq::<Seq<char>>::empty());
    }
}

/// Builds page `page` of the model list.
pub fn model_page(models: Vec<String>, page: i32) -> (r: ListPage)
    requires
        0 < models@.len() <= 10 * (i32::MAX as int),
    ensures
        page_view(r) == models_page(views(models@), page as int),
{
    let total = models.len() / PAGE_SIZE + if models.len() % PAGE_SIZE == 0 { 0 } else { 1 };
    assert(total == page_count(models@.len())) by (nonlinear_arith)
        requires
            total == models@.len() / 10 + if models@.len() % 10 == 0 { 0int } else { 1 },
            models@.len() > 0,
    {
    }
    let shown = wrap_page(page, total);
    let sorted = sort_strings(models);
    let mut description = String::new();
    push_str(&mut description, MODELS_HEADER);
    push_lines(&mut description, &sorted, shown);
    ListPage {
        title: make_title("Model List", shown + 1, total),
        description,
        prev_page: shown as i32 - 1,
        next_page: shown as i32 + 1,
    }
}

/// The page of a model's speaker list for a requested page number; a model
/// without speakers gets a single empty page numbered `0/0`.
pub open spec fn speakers_page(model: Seq<char>, speakers: Seq<Seq<char>>, page: int) -> (Seq<char>, Seq<char>, int, int) {
    let total = page_count(speakers.len());
    let shown: nat = if speakers.len() == 0 { 0 } else { wrapped_page(page, total) };
    let number = if shown + 1 < total { shown + 1 } else { total };
    (
        page_title("Speaker List for "@ + model, number, total),
        if speakers.len() == 0 {
            "There are no speakers for this model."@
        } else {
            list_lines(page_entries(speakers.sort_by(lex_order()), shown))
        },
        shown - 1,
        (shown + 1) as int,
    )
}

/// The entries of page `k` of a sorted list: from the `10 k`-th to just
/// before the `10 k + 10`-th, or to the end.
pub proof fn lemma_page_entries(sorted: Seq<Seq<char>>, k: nat)
    requires
        k * PAGE_SIZE < sorted.len(),
    ensures
        page_entries(sorted, k) == sorted.subrange(
            (k * 10) as int,
            if k * 10 + 10 < sorted.len() { (k * 10 + 10) as int } else { sorted.len() as int },
        ),
{
}

/// For a model with speakers, asking for page `p` shows page `p` modulo the
/// number of pages `n`: the sorted speakers from the `10 (p mod n)`-th on, at
/// most ten, numbered `(p mod n) + 1` of `n`, with buttons to the pages just
/// before and after it.
pub proof fn lemma_speaker_page_shows_requested(model: Seq<char>, speakers: Seq<Seq<char>>, page: int)
    requires
        speakers.len() > 0,
    ensures
        ({
            let n = page_count(speakers.len()) as int;
            let k = page % n;
            let sorted = speakers.sort_by(lex_order());
            let v = speakers_page(model, speakers, page);
            &&& n == (speakers.len() + 9) / 10
            &&& 0 <= k < n
            &&& v.0 == page_title("Speaker List for "@ + model, (k + 1) as nat, n as nat)
            &&& v.1 == list_lines(sorted.subrange(
                k * 10,
                if k * 10 + 10 < speakers.len() { k * 10 + 10 } else { speakers.len() as int },
            ))
            &&& v.2 == k - 1
            &&& v.3 == k + 1
        }),
{
    let n = page_count(speakers.len()) as int;
    let k = page % n;
    assert(n > 0);
    assert(k * 10 < speakers.len()) by (nonlinear_arith)
        requires
            0 <= k < n,
            n == (speakers.len() + 9) / 10,
    {
    }
    let sorted = speakers.sort_by(lex_order());
    crate::text::lemma_lex_total_ordering();
    speakers.lemma_sort_by_ensures(lex_order());
    vstd::seq_lib::to_multiset_len(speakers);
    vstd::seq_lib::to_multiset_len(sorted);
    lemma_page_entries(sorted, k as nat);
}

/// The same for the model list, below its header.
pub proof fn lemma_model_page_shows_requested(models: Seq<Seq<char>>, page: int)
    requires
        models.len() > 0,
    ensures
        ({
            let n = page_count(models.len()) as int;
            let k = page % n;
            let v = models_page(models, page);
            &&& n == (models.len() + 9) / 10
            &&& 0 <= k < n
            &&& v.0 == page_title("Model List"@, (k + 1) as nat, n as nat)
            &&& v.1 == MODELS_HEADER@ + list_lines(models.sort_by(lex_order()).subrange(
                k * 10,
                if k * 10 + 10 < models.len() { k * 10 + 10 } else { models.len() as int },
            ))
            &&& v.2 == k - 1
            &&& v.3 == k + 1
        }),
{
    let n = page_count(models.len()) as int;
    let k = page % n;
    assert(k * 10 < models.len()) by (nonlinear_arith)
        requires
            0 <= k < n,
            n == (models.len() + 9) / 10,
    {
    }
    let sorted = models.sort_by(lex_order());
    crate::text::lemma_lex_total_ordering();
    models.lemma_sort_by_ensures(lex_order());
    vstd::seq_lib::to_multiset_len(models);
    vstd::seq_lib::to_multiset_len(sorted);
    lemma_page_entries(sorted, k as nat);
}

/// Builds page `page` of the speaker list of `speakers.model`.
pub fn speaker_page(speakers: GetSpeakers, page: i32) -> (r: ListPage)
    requires
        speakers.speakers@.len() <= 10 * (i32::MAX as int),
    ensures
        page_view(r) == speakers_page(speakers.model@, views(speakers.speakers@), page as int),
{
    let list = speakers.speakers;
    let mut description = String::new();
    let mut total: usize = 0;
    let mut shown: usize = 0;
    if list.len() > 0 {
        total = list.len() / PAGE_SIZE + if list.len() % PAGE_SIZE == 0 { 0 } else { 1 };
        assert(total == page_count(list@.len())) by (nonlinear_arith)
            requires
                total == list@.len() / 10 + if list@.len() % 10 == 0 { 0int } else { 1 },
                list@.len() > 0,
        {
        }
        shown = wrap_page(page, total);
        let sorted = sort_strings(list);
        push_lines(&mut description, &sorted, shown);
    } else {
        push_str(&mut description, "There are no speakers for this model.");
    }
    let mut name = String::new();
    push_str(&mut name, "Speaker List for ");
    push_str(&mut name, speakers.model.as_str());
    let number = if shown + 1 < total { shown + 1 } else { total };
    ListPage {
        title: make_title(name.as_str(), number, total),
        description,
        prev_page: shown as i32 - 1,
        next_page: shown as i32 + 1,
    }
}


/// What a button's custom id holds for a list.
pub enum ButtonPayload {
    /// The id belongs to another component.
    NotOurs,
    /// The text the bot reads as the page number in JSON: what follows the
    /// prefix, less one single-byte separator where the list expects one.
    Payload(String),
    /// The id starts with the prefix, a separator is expected, and there is no
    /// single-byte character after the prefix; the bot cannot cut such an id
    /// where it expects and stops there.
    Malformed,
}

/// The payload of `custom_id` for an ASCII `prefix`: what follows the prefix,
/// after one more single-byte character when `separator` is set.
pub open spec fn payload_of(custom_id: Seq<char>, prefix: Seq<char>, separator: bool) -> ButtonPayloadView {
    if !prefix.is_prefix_of(custom_id) {
        ButtonPayloadView::NotOurs
    } else {
        let rest = custom_id.skip(prefix.len() as int);
        if !separator {
            ButtonPayloadView::Payload(rest)
        } else if rest.len() > 0 && (rest[0] as int) < 128 {
            ButtonPayloadView::Payload(rest.skip(1))
        } else {
            ButtonPayloadView::Malformed
        }
    }
}

/// `ButtonPayload` over character sequences.
pub enum ButtonPayloadView {
    NotOurs,
    Payload(Seq<char>),
    Malformed,
}

pub open spec fn payload_view(p: ButtonPayload) -> ButtonPayloadView {
    match p {
        ButtonPayload::NotOurs => ButtonPayloadView::NotOurs,
        ButtonPayload::Payload(s) => ButtonPayloadView::Payload(s@),
        ButtonPayload::Malformed => ButtonPayloadView::Malformed,
    }
}

fn button_payload(custom_id: &str, prefix: &str, separator: bool) -> (r: ButtonPayload)
    ensures
        payload_view(r) == payload_of(custom_id@, prefix@, separator),
{
    if !crate::text::starts_with(custom_id, prefix) {
        return ButtonPayload::NotOurs;
    }
    let id = crate::text::chars_of(custom_id);
    let pv = crate::text::chars_of(prefix);
    let n = pv.len();
    assert(n == prefix@.len());
    let ghost rest = custom_id@.skip(n as int);
    assert(n <= id.len());
    if separator && n >= id.len() {
        assert(rest.len() == 0);
        return ButtonPayload::Malformed;
    }
    if separator {
        assert(rest[0] == id@[n as int]);
        if crate::text::char_code(id[n]) >= 128 {
            return ButtonPayload::Malformed;
        }
    }
    let start = if separator { n + 1 } else { n };
    let mut payload = String::new();
    let mut i = start;
    while i < id.len()
        invariant
            id@ == custom_id@,
            start <= id.len(),
            start <= i <= id.len(),
            payload@ == custom_id@.subrange(start as int, i as int),
        decreases id.len() - i,
    {
        payload.push(id[i]);
        assert(custom_id@.subrange(start as int, i + 1) =~= custom_id@.subrange(start as int, i as int).push(id@[i as int]));
        i = i + 1;
    }
    if separator {
        assert(rest.skip(1) =~= custom_id@.subrange(start as int, id.len() as int));
    } else {
        assert(rest =~= custom_id@.subrange(start as int, id.len() as int));
    }
    ButtonPayload::Payload(payload)
}

/// Answers the buttons of the model list.
pub struct ViewModelsListener;

/// Answers the buttons of the speaker list.
pub struct ViewSpeakersListener;

impl ViewModelsListener {
    /// The payload of a button's custom id, if the button belongs to the model
    /// list: what follows `"view_models"` and one separator byte.
    pub fn button_payload(custom_id: &str) -> (r: ButtonPayload)
        ensures
            payload_view(r) == payload_of(custom_id@, "view_models"@, true),
    {
        button_payload(custom_id, "view_models", true)
    }
}

impl ViewSpeakersListener {
    /// The payload of a button's custom id, if the button belongs to the
    /// speaker list: everything that follows `"view_speakers"`; never `Malformed`.
    pub fn button_payload(custom_id: &str) -> (r: ButtonPayload)
        ensures
            payload_view(r) == payload_of(custom_id@, "view_speakers"@, false),
            !(r is Malformed),
    {
        button_payload(custom_id, "view_speakers", false)
    }
}

} // verus!
