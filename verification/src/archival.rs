//! The streaming archive writer: what one message needs before it can be
//! written, and how the assets it references are resolved through the
//! cache.
//!
//! The caller hands in `fetch`, which obtains the bytes of one planned
//! asset and stores them under the plan's path. Everything else is decided
//! here: which assets a message needs and in which order, which of them the
//! cache holds already, and which step a failure belongs to.

use vstd::prelude::*;
use crate::assets::{
    attachment_path, attachment_plan, avatar_plan, avatar_plan_is, emoji_key, emoji_plan,
    emoji_plan_is, sticker_plan, sticker_plan_is, AssetKey, AssetKeyView, AssetPlan,
};
use crate::cache::AssetCache;
use crate::extension::ResolveError;
use crate::message::{EmojiRef, Message};
use crate::scan::{custom_emoji_ids, tokens, TokenKind};

verus! {

/// The step of processing a message to which a failure belongs.
#[derive(Debug, Copy, Clone, PartialEq, Eq, Structural)]
pub enum Step {
    Attachment,
    Sticker,
    Avatar,
    Reaction,
    TextEmoji,
}

/// What a step is called in the rendering of a failure.
pub open spec fn step_name(step: Step) -> Seq<char> {
    match step {
        Step::Attachment => "downloading attachments"@,
        Step::Sticker => "fetching sticker"@,
        Step::Avatar => "fetching user avatar"@,
        Step::Reaction => "fetching emoji"@,
        Step::TextEmoji => "fetching emoji"@,
    }
}

/// What a step is called in the rendering of a failure.
pub fn step_text(step: Step) -> (text: &'static str)
    ensures
        text@ == step_name(step),
{
    match step {
        Step::Attachment => "downloading attachments",
        Step::Sticker => "fetching sticker",
        Step::Avatar => "fetching user avatar",
        Step::Reaction => "fetching emoji",
        Step::TextEmoji => "fetching emoji",
    }
}

/// Why a step failed: the asset could not be planned, or fetching it
/// failed with the caller's error.
#[derive(Debug)]
pub enum Cause<Failure> {
    Resolution(ResolveError),
    Fetch(Failure),
}

/// A failure of processing one message, with the message and the step
/// that were active.
#[derive(Debug)]
pub struct ArchiveError<Failure> {
    pub message_id: u64,
    pub step: Step,
    pub cause: Cause<Failure>,
}

/// One asset that a message needs from the cache: the sticker or the
/// reaction at a position of the message, the author's avatar, or a custom
/// emoji that the text names.
#[derive(Debug, Copy, Clone, PartialEq, Eq, Structural)]
pub enum AssetRequest {
    Sticker(usize),
    Avatar,
    Reaction(usize),
    TextEmoji(u64),
}

/// Whether the request points into the message.
pub open spec fn request_valid(message: Message, request: AssetRequest) -> bool {
    match request {
        AssetRequest::Sticker(i) => i < message.sticker_items@.len(),
        AssetRequest::Reaction(i) => i < message.reactions@.len(),
        AssetRequest::Avatar => true,
        AssetRequest::TextEmoji(_) => true,
    }
}

/// The key of the asset that the request asks for.
pub open spec fn request_key(message: Message, request: AssetRequest) -> AssetKeyView {
    match request {
        AssetRequest::Sticker(i) => AssetKeyView::Sticker(message.sticker_items@[i as int].id),
        AssetRequest::Avatar => AssetKeyView::Avatar(message.author.id),
        AssetRequest::Reaction(i) => emoji_key(message.reactions@[i as int].emoji),
        AssetRequest::TextEmoji(id) => AssetKeyView::CustomEmoji(id),
    }
}

/// The step to which the request belongs.
pub open spec fn request_step(request: AssetRequest) -> Step {
    match request {
        AssetRequest::Sticker(_) => Step::Sticker,
        AssetRequest::Avatar => Step::Avatar,
        AssetRequest::Reaction(_) => Step::Reaction,
        AssetRequest::TextEmoji(_) => Step::TextEmoji,
    }
}

/// `plan` is what the strategy for the requested kind of asset leads to.
pub open spec fn request_plan_is(
    plan: Result<AssetPlan, ResolveError>,
    message: Message,
    request: AssetRequest,
) -> bool {
    match request {
        AssetRequest::Sticker(i) => sticker_plan_is(plan, message.sticker_items@[i as int]),
        AssetRequest::Avatar => avatar_plan_is(plan, message.author),
        AssetRequest::Reaction(i) => emoji_plan_is(plan, message.reactions@[i as int].emoji),
        AssetRequest::TextEmoji(id) => emoji_plan_is(plan, EmojiRef::Custom(id)),
    }
}

/// `fetch` obtained the asset of `plan`.
pub open spec fn fetched<Failure, Fetch: Fn(&AssetPlan) -> Result<(), Failure>>(
    fetch: Fetch,
    plan: AssetPlan,
) -> bool {
    call_ensures(fetch, (&plan,), Ok::<(), Failure>(()))
}

/// `fetch` failed on the asset of `plan` with `error`.
pub open spec fn fetch_failed<Failure, Fetch: Fn(&AssetPlan) -> Result<(), Failure>>(
    fetch: Fetch,
    plan: AssetPlan,
    error: Failure,
) -> bool {
    call_ensures(fetch, (&plan,), Err::<(), Failure>(error))
}

/// The step to which the request belongs.
pub fn step_of(request: AssetRequest) -> (step: Step)
    ensures
        step == request_step(request),
{
    match request {
        AssetRequest::Sticker(_) => Step::Sticker,
        AssetRequest::Avatar => Step::Avatar,
        AssetRequest::Reaction(_) => Step::Reaction,
        AssetRequest::TextEmoji(_) => Step::TextEmoji,
    }
}

/// The key of the asset that the request asks for.
pub fn key_for(message: &Message, request: AssetRequest) -> (key: AssetKey)
    requires
        request_valid(*message, request),
    ensures
        key@ == request_key(*message, request),
{
    match request {
        AssetRequest::Sticker(i) => AssetKey::Sticker(message.sticker_items[i].id),
        AssetRequest::Avatar => AssetKey::Avatar(message.author.id),
        AssetRequest::Reaction(i) => AssetKey::of_emoji(&message.reactions[i].emoji),
        AssetRequest::TextEmoji(id) => AssetKey::CustomEmoji(id),
    }
}

/// The plan by which the requested asset is obtained.
pub fn plan_for(message: &Message, request: AssetRequest) -> (plan: Result<
    AssetPlan,
    ResolveError,
>)
    requires
        request_valid(*message, request),
    ensures
        request_plan_is(plan, *message, request),
{
    match request {
        AssetRequest::Sticker(i) => sticker_plan(&message.sticker_items[i]),
        AssetRequest::Avatar => avatar_plan(&message.author),
        AssetRequest::Reaction(i) => emoji_plan(&message.reactions[i].emoji),
        AssetRequest::TextEmoji(id) => emoji_plan(&EmojiRef::Custom(id)),
    }
}

/// What `ensure_asset` leaves behind for a request with key `key`: on a
/// hit the cache is unchanged and the stored path comes back; on a miss
/// the asset is planned and fetched, and stored only where both succeed.
pub open spec fn ensured<Failure, Fetch: Fn(&AssetPlan) -> Result<(), Failure>>(
    before: Map<AssetKeyView, Seq<char>>,
    after: Map<AssetKeyView, Seq<char>>,
    message: Message,
    request: AssetRequest,
    fetch: Fetch,
    path: Result<String, Cause<Failure>>,
) -> bool {
    let key = request_key(message, request);
    if before.contains_key(key) {
        &&& after == before
        &&& path matches Ok(stored)
        &&& stored@ == before[key]
    } else {
        match path {
            Ok(stored) => {
                &&& after == before.insert(key, stored@)
                &&& exists|plan: AssetPlan|
                    request_plan_is(Ok(plan), message, request) && plan.path@ == stored@
                        && #[trigger] fetched(fetch, plan)
            },
            Err(Cause::Resolution(error)) => {
                &&& after == before
                &&& request_plan_is(Err(error), message, request)
            },
            Err(Cause::Fetch(error)) => {
                &&& after == before
                &&& exists|plan: AssetPlan|
                    request_plan_is(Ok(plan), message, request) && #[trigger] fetch_failed(
                        fetch,
                        plan,
                        error,
                    )
            },
        }
    }
}

/// Resolves one requested asset through the cache. An asset that the
/// cache holds is neither planned nor fetched again.
pub fn ensure_asset<Failure, Fetch: Fn(&AssetPlan) -> Result<(), Failure>>(
    cache: &mut AssetCache,
    message: &Message,
    request: AssetRequest,
    fetch: &Fetch,
) -> (path: Result<String, Cause<Failure>>)
    requires
        old(cache).wf(),
        request_valid(*message, request),
        forall|plan: &AssetPlan| call_requires(*fetch, (plan,)),
    ensures
        final(cache).wf(),
        ensured(old(cache)@, final(cache)@, *message, request, *fetch, path),
        old(cache)@.submap_of(final(cache)@),
        path matches Ok(stored) ==> final(cache)@.contains_key(request_key(*message, request))
            && stored@ == final(cache)@[request_key(*message, request)],
{
    let key = key_for(message, request);
    match cache.get(&key) {
        Some(stored) => Ok(stored),
        None => match plan_for(message, request) {
            Err(error) => Err(Cause::Resolution(error)),
            Ok(plan) => match fetch(&plan) {
                Err(error) => {
                    assert(request_plan_is(Ok(plan), *message, request) && fetch_failed(
                        *fetch,
                        plan,
                        error,
                    ));
                    let path = Err(Cause::Fetch(error));
                    assert(path matches Err(Cause::Fetch(given)) && given == error);
                    path
                },
                Ok(done) => {
                    assert(done == ());
                    assert(fetched(*fetch, plan));
                    let stored = cache.insert(key, plan.path);
                    Ok(stored)
                },
            },
        },
    }
}

/// A sticker of a message with the path of its resolved image.
#[derive(Debug, Clone)]
pub struct StickerStore {
    pub id: u64,
    pub path: String,
}

/// A reaction of a message with the path of its resolved emoji image.
#[derive(Debug, Clone)]
pub struct ReactionStore {
    pub path: String,
    pub count: u64,
}

/// The resolved assets of one message: what its record is overlaid with.
/// All paths are relative to the root of the archive.
#[derive(Debug)]
pub struct MessageAssets {
    /// The path of each attachment, in the order of the message.
    pub attachments: Vec<String>,
    /// Each sticker with its path, in the order of the message.
    pub stickers: Vec<StickerStore>,
    /// The path of the author's avatar.
    pub avatar: String,
    /// Each reaction with the path of its emoji, in the order of the
    /// message.
    pub reactions: Vec<ReactionStore>,
}

/// The path at position `i` is that of the attachment at position `i`.
pub open spec fn attachment_stored_at(paths: Seq<String>, message: Message, i: int) -> bool {
    paths[i]@ == attachment_path(message.attachments@[i].id, message.attachments@[i].filename@)
}

/// The first `n` paths are those of the first `n` attachments.
pub open spec fn attachments_stored(paths: Seq<String>, message: Message, n: int) -> bool {
    forall|i: int| 0 <= i < n ==> #[trigger] attachment_stored_at(paths, message, i)
}

/// The entry at position `i` is the sticker at position `i` of the
/// message, with the path that `known` holds for it.
pub open spec fn sticker_stored_at(
    stickers: Seq<StickerStore>,
    message: Message,
    known: Map<AssetKeyView, Seq<char>>,
    i: int,
) -> bool {
    let key = AssetKeyView::Sticker(message.sticker_items@[i].id);
    &&& stickers[i].id == message.sticker_items@[i].id
    &&& known.contains_key(key)
    &&& stickers[i].path@ == known[key]
}

/// The first `n` entries are the first `n` stickers of the message, each
/// with the path that `known` holds for it.
pub open spec fn stickers_stored(
    stickers: Seq<StickerStore>,
    message: Message,
    known: Map<AssetKeyView, Seq<char>>,
    n: int,
) -> bool {
    forall|i: int| 0 <= i < n ==> #[trigger] sticker_stored_at(stickers, message, known, i)
}

/// The entry at position `i` is the reaction at position `i` of the
/// message, with its count and the path that `known` holds for its emoji.
pub open spec fn reaction_stored_at(
    reactions: Seq<ReactionStore>,
    message: Message,
    known: Map<AssetKeyView, Seq<char>>,
    i: int,
) -> bool {
    let key = emoji_key(message.reactions@[i].emoji);
    &&& reactions[i].count == message.reactions@[i].count
    &&& known.contains_key(key)
    &&& reactions[i].path@ == known[key]
}

/// The first `n` entries are the first `n` reactions of the message, each
/// with its count and the path that `known` holds for its emoji.
pub open spec fn reactions_stored(
    reactions: Seq<ReactionStore>,
    message: Message,
    known: Map<AssetKeyView, Seq<char>>,
    n: int,
) -> bool {
    forall|i: int| 0 <= i < n ==> #[trigger] reaction_stored_at(reactions, message, known, i)
}

/// `known` holds the first `n` of the custom emoji `ids`.
pub open spec fn text_emoji_stored(
    ids: Seq<u64>,
    known: Map<AssetKeyView, Seq<char>>,
    n: int,
) -> bool {
    forall|i: int| 0 <= i < n ==> known.contains_key(AssetKeyView::CustomEmoji(#[trigger] ids[i]))
}

/// `assets` are the resolved assets of `message`, as `known` holds them:
/// every attachment, sticker and reaction of the message has its path, the
/// author's avatar has its path, and every custom emoji that the text names
/// is resolved.
pub open spec fn assets_of(
    assets: MessageAssets,
    message: Message,
    known: Map<AssetKeyView, Seq<char>>,
) -> bool {
    &&& assets.attachments@.len() == message.attachments@.len()
    &&& attachments_stored(assets.attachments@, message, message.attachments@.len() as int)
    &&& assets.stickers@.len() == message.sticker_items@.len()
    &&& stickers_stored(assets.stickers@, message, known, message.sticker_items@.len() as int)
    &&& known.contains_key(AssetKeyView::Avatar(message.author.id))
    &&& assets.avatar@ == known[AssetKeyView::Avatar(message.author.id)]
    &&& assets.reactions@.len() == message.reactions@.len()
    &&& reactions_stored(assets.reactions@, message, known, message.reactions@.len() as int)
    &&& text_emoji_cached(message, known)
}

/// Whether the message asks for the requested asset: the sticker or the
/// reaction is one of its own, the custom emoji is named in its text.
pub open spec fn request_wanted(message: Message, request: AssetRequest) -> bool {
    match request {
        AssetRequest::TextEmoji(id) => tokens(message.content@, TokenKind::CustomEmoji).contains(
            id,
        ),
        _ => request_valid(message, request),
    }
}

/// The message asks, by `request`, for the asset with key `key`.
pub open spec fn asks_for(message: Message, request: AssetRequest, key: AssetKeyView) -> bool {
    request_wanted(message, request) && request_key(message, request) == key
}

/// Whatever `after` holds beyond `before` is an asset that the message
/// asks for.
pub open spec fn only_needed(
    before: Map<AssetKeyView, Seq<char>>,
    after: Map<AssetKeyView, Seq<char>>,
    message: Message,
) -> bool {
    forall|key: AssetKeyView| #[trigger]
        after.contains_key(key) ==> before.contains_key(key) || exists|request: AssetRequest|
            #[trigger] asks_for(message, request, key)
}

/// `fetch` obtained the attachment at position `i` under its path.
pub open spec fn attachment_fetched_at<Failure, Fetch: Fn(&AssetPlan) -> Result<(), Failure>>(
    fetch: Fetch,
    message: Message,
    i: int,
) -> bool {
    exists|plan: AssetPlan|
        plan.fetches(
            message.attachments@[i].url@,
            attachment_path(message.attachments@[i].id, message.attachments@[i].filename@),
        ) && #[trigger] fetched(fetch, plan)
}

/// `known` holds every sticker of the message.
pub open spec fn stickers_cached(message: Message, known: Map<AssetKeyView, Seq<char>>) -> bool {
    forall|i: usize|
        i < message.sticker_items@.len() ==> known.contains_key(
            #[trigger] request_key(message, AssetRequest::Sticker(i)),
        )
}

/// `known` holds the emoji of every reaction of the message.
pub open spec fn reactions_cached(message: Message, known: Map<AssetKeyView, Seq<char>>) -> bool {
    forall|i: usize|
        i < message.reactions@.len() ==> known.contains_key(
            #[trigger] request_key(message, AssetRequest::Reaction(i)),
        )
}

/// `known` holds every custom emoji that the text of the message names.
pub open spec fn text_emoji_cached(message: Message, known: Map<AssetKeyView, Seq<char>>) -> bool {
    text_emoji_stored(
        tokens(message.content@, TokenKind::CustomEmoji),
        known,
        tokens(message.content@, TokenKind::CustomEmoji).len() as int,
    )
}

/// The message has no attachment, and `known` holds every asset that it
/// needs: nothing is left to plan or to fetch.
pub open spec fn nothing_to_fetch(message: Message, known: Map<AssetKeyView, Seq<char>>) -> bool {
    &&& message.attachments@.len() == 0
    &&& stickers_cached(message, known)
    &&& known.contains_key(AssetKeyView::Avatar(message.author.id))
    &&& reactions_cached(message, known)
    &&& text_emoji_cached(message, known)
}

/// A failure at `step` has a cause in the message or in `fetch`: an asset
/// of that step whose plan fails with that error, or an asset on which
/// `fetch` failed with it.
pub open spec fn failure_explained<Failure, Fetch: Fn(&AssetPlan) -> Result<(), Failure>>(
    step: Step,
    cause: Cause<Failure>,
    message: Message,
    fetch: Fetch,
) -> bool {
    match cause {
        Cause::Resolution(error) => exists|request: AssetRequest|
            request_valid(message, request) && request_step(request) == step
                && #[trigger] request_plan_is(Err(error), message, request),
        Cause::Fetch(error) => exists|plan: AssetPlan| #[trigger] fetch_failed(fetch, plan, error),
    }
}

/// What was stored stays stored when the cache grows.
pub proof fn lemma_stored_grows(
    stickers: Seq<StickerStore>,
    reactions: Seq<ReactionStore>,
    ids: Seq<u64>,
    message: Message,
    known: Map<AssetKeyView, Seq<char>>,
    larger: Map<AssetKeyView, Seq<char>>,
    s: int,
    r: int,
    t: int,
)
    requires
        known.submap_of(larger),
    ensures
        stickers_stored(stickers, message, known, s) ==> stickers_stored(
            stickers,
            message,
            larger,
            s,
        ),
        reactions_stored(reactions, message, known, r) ==> reactions_stored(
            reactions,
            message,
            larger,
            r,
        ),
        text_emoji_stored(ids, known, t) ==> text_emoji_stored(ids, larger, t),
{
    if stickers_stored(stickers, message, known, s) {
        assert forall|i: int| 0 <= i < s implies #[trigger] sticker_stored_at(
            stickers,
            message,
            larger,
            i,
        ) by {
            assert(sticker_stored_at(stickers, message, known, i));
            assert(known.dom().contains(AssetKeyView::Sticker(message.sticker_items@[i].id)));
        }
    }
    if reactions_stored(reactions, message, known, r) {
        assert forall|i: int| 0 <= i < r implies #[trigger] reaction_stored_at(
            reactions,
            message,
            larger,
            i,
        ) by {
            assert(reaction_stored_at(reactions, message, known, i));
            assert(known.dom().contains(emoji_key(message.reactions@[i].emoji)));
        }
    }
    if text_emoji_stored(ids, known, t) {
        assert forall|i: int| 0 <= i < t implies larger.contains_key(
            AssetKeyView::CustomEmoji(#[trigger] ids[i]),
        ) by {
            assert(known.dom().contains(AssetKeyView::CustomEmoji(ids[i])));
        }
    }
}

/// A cache that grew by what the message asks for, twice, grew by what
/// the message asks for.
proof fn lemma_only_needed_on(
    a: Map<AssetKeyView, Seq<char>>,
    b: Map<AssetKeyView, Seq<char>>,
    c: Map<AssetKeyView, Seq<char>>,
    message: Message,
)
    requires
        only_needed(a, b, message),
        only_needed(b, c, message),
    ensures
        only_needed(a, c, message),
{
    assert forall|key: AssetKeyView| #[trigger] c.contains_key(key) implies a.contains_key(key)
        || exists|request: AssetRequest| #[trigger] asks_for(message, request, key) by {
        if b.contains_key(key) {
        }
    }
}

/// One resolved request makes the cache grow by what the message asks
/// for.
proof fn lemma_only_needed_step<Failure, Fetch: Fn(&AssetPlan) -> Result<(), Failure>>(
    start: Map<AssetKeyView, Seq<char>>,
    before: Map<AssetKeyView, Seq<char>>,
    after: Map<AssetKeyView, Seq<char>>,
    message: Message,
    request: AssetRequest,
    fetch: Fetch,
    path: Result<String, Cause<Failure>>,
)
    requires
        only_needed(start, before, message),
        request_wanted(message, request),
        ensured(before, after, message, request, fetch, path),
    ensures
        only_needed(start, after, message),
{
    let wanted = request_key(message, request);
    assert forall|key: AssetKeyView| #[trigger] after.contains_key(key) implies start.contains_key(
        key,
    ) || exists|request: AssetRequest| #[trigger] asks_for(message, request, key) by {
        if !before.contains_key(key) {
            assert(key == wanted);
            assert(asks_for(message, request, key));
        }
    }
}

/// The assets of a message, each stored when its step was done, are the
/// assets of the message as the cache holds them in the end.
proof fn lemma_assets_assembled(
    assets: MessageAssets,
    message: Message,
    after_stickers: Map<AssetKeyView, Seq<char>>,
    after_avatar: Map<AssetKeyView, Seq<char>>,
    after_reactions: Map<AssetKeyView, Seq<char>>,
    known: Map<AssetKeyView, Seq<char>>,
)
    requires
        after_stickers.submap_of(after_avatar),
        after_avatar.submap_of(after_reactions),
        after_reactions.submap_of(known),
        assets.attachments@.len() == message.attachments@.len(),
        attachments_stored(assets.attachments@, message, message.attachments@.len() as int),
        assets.stickers@.len() == message.sticker_items@.len(),
        stickers_stored(
            assets.stickers@,
            message,
            after_stickers,
            message.sticker_items@.len() as int,
        ),
        after_avatar.contains_key(AssetKeyView::Avatar(message.author.id)),
        assets.avatar@ == after_avatar[AssetKeyView::Avatar(message.author.id)],
        assets.reactions@.len() == message.reactions@.len(),
        reactions_stored(
            assets.reactions@,
            message,
            after_reactions,
            message.reactions@.len() as int,
        ),
        text_emoji_cached(message, known),
    ensures
        assets_of(assets, message, known),
{
    let n = message.sticker_items@.len() as int;
    let m = message.reactions@.len() as int;
    lemma_grows_on(after_stickers, after_avatar, after_reactions);
    lemma_grows_on(after_stickers, after_reactions, known);
    lemma_grows_on(after_avatar, after_reactions, known);
    lemma_stored_grows(
        assets.stickers@,
        assets.reactions@,
        Seq::empty(),
        message,
        after_stickers,
        known,
        n,
        0,
        0,
    );
    lemma_stored_grows(
        assets.stickers@,
        assets.reactions@,
        Seq::empty(),
        message,
        after_reactions,
        known,
        0,
        m,
        0,
    );
    assert(after_avatar.dom().contains(AssetKeyView::Avatar(message.author.id)));
}

/// Growth of the cache is transitive.
proof fn lemma_grows_on(
    a: Map<AssetKeyView, Seq<char>>,
    b: Map<AssetKeyView, Seq<char>>,
    c: Map<AssetKeyView, Seq<char>>,
)
    requires
        a.submap_of(b),
        b.submap_of(c),
    ensures
        a.submap_of(c),
{
    assert forall|k: AssetKeyView| #[trigger] a.dom().contains(k) implies c.dom().contains(k)
        && a[k] == c[k] by {
        assert(b.dom().contains(k));
    }
}

/// A failed request has a cause in the message or in `fetch`.
proof fn lemma_failure_explained<Failure, Fetch: Fn(&AssetPlan) -> Result<(), Failure>>(
    before: Map<AssetKeyView, Seq<char>>,
    after: Map<AssetKeyView, Seq<char>>,
    message: Message,
    request: AssetRequest,
    fetch: Fetch,
    path: Result<String, Cause<Failure>>,
)
    requires
        request_valid(message, request),
        ensured(before, after, message, request, fetch, path),
        path is Err,
    ensures
        failure_explained(request_step(request), path->Err_0, message, fetch),
{
}

/// Fetches every attachment of the message. Attachments pass no cache:
/// each is fetched whenever it is met.
pub fn fetch_attachments<Failure, Fetch: Fn(&AssetPlan) -> Result<(), Failure>>(
    message: &Message,
    fetch: &Fetch,
) -> (paths: Result<Vec<String>, Failure>)
    requires
        forall|plan: &AssetPlan| call_requires(*fetch, (plan,)),
    ensures
        match paths {
            Ok(paths) => {
                &&& paths@.len() == message.attachments@.len()
                &&& attachments_stored(paths@, *message, paths@.len() as int)
                &&& forall|i: int|
                    0 <= i < message.attachments@.len() ==> #[trigger] attachment_fetched_at(
                        *fetch,
                        *message,
                        i,
                    )
            },
            Err(error) => exists|plan: AssetPlan| #[trigger] fetch_failed(*fetch, plan, error),
        },
        message.attachments@.len() == 0 ==> paths is Ok,
{
    let mut paths: Vec<String> = Vec::new();
    let mut i: usize = 0;
    while i < message.attachments.len()
        invariant
            i <= message.attachments@.len(),
            paths@.len() == i,
            attachments_stored(paths@, *message, i as int),
            forall|j: int| 0 <= j < i ==> #[trigger] attachment_fetched_at(*fetch, *message, j),
            forall|plan: &AssetPlan| call_requires(*fetch, (plan,)),
        decreases message.attachments@.len() - i,
    {
        let plan = attachment_plan(&message.attachments[i]);
        match fetch(&plan) {
            Ok(done) => {
                assert(done == ());
                assert(fetched(*fetch, plan));
                assert(attachment_fetched_at(*fetch, *message, i as int));
                let ghost before = paths@;
                paths.push(plan.path);
                assert forall|j: int| 0 <= j < i + 1 implies #[trigger] attachment_stored_at(
                    paths@,
                    *message,
                    j,
                ) by {
                    if j < i {
                        assert(attachment_stored_at(before, *message, j));
                    }
                }
            },
            Err(error) => {
                assert(fetch_failed(*fetch, plan, error));
                let failed = Err(error);
                assert(failed matches Err(given) && given == error);
                return failed;
            },
        }
        i = i + 1;
    }
    Ok(paths)
}

/// Resolves every sticker of the message, in order.
pub fn ensure_stickers<Failure, Fetch: Fn(&AssetPlan) -> Result<(), Failure>>(
    cache: &mut AssetCache,
    message: &Message,
    fetch: &Fetch,
) -> (stickers: Result<Vec<StickerStore>, Cause<Failure>>)
    requires
        old(cache).wf(),
        forall|plan: &AssetPlan| call_requires(*fetch, (plan,)),
    ensures
        final(cache).wf(),
        old(cache)@.submap_of(final(cache)@),
        match stickers {
            Ok(stickers) => {
                &&& stickers@.len() == message.sticker_items@.len()
                &&& stickers_stored(stickers@, *message, final(cache)@, stickers@.len() as int)
            },
            Err(cause) => failure_explained(Step::Sticker, cause, *message, *fetch),
        },
        stickers_cached(*message, old(cache)@) ==> stickers is Ok && final(cache)@ == old(cache)@,
        only_needed(old(cache)@, final(cache)@, *message),
{
    let mut stickers: Vec<StickerStore> = Vec::new();
    let mut i: usize = 0;
    while i < message.sticker_items.len()
        invariant
            i <= message.sticker_items@.len(),
            cache.wf(),
            old(cache)@.submap_of(cache@),
            stickers@.len() == i,
            stickers_stored(stickers@, *message, cache@, i as int),
            stickers_cached(*message, old(cache)@) ==> cache@ == old(cache)@,
            only_needed(old(cache)@, cache@, *message),
            forall|plan: &AssetPlan| call_requires(*fetch, (plan,)),
        decreases message.sticker_items@.len() - i,
    {
        let ghost known = cache@;
        let request = AssetRequest::Sticker(i);
        let path = ensure_asset(cache, message, request, fetch);
        assert(stickers_cached(*message, old(cache)@) ==> known.contains_key(
            request_key(*message, AssetRequest::Sticker(i)),
        ));
        proof {
            lemma_only_needed_step(old(cache)@, known, cache@, *message, request, *fetch, path);
        }
        match path {
            Ok(stored) => {
                proof {
                    lemma_stored_grows(
                        stickers@,
                        Seq::empty(),
                        Seq::empty(),
                        *message,
                        known,
                        cache@,
                        i as int,
                        0,
                        0,
                    );
                }
                let ghost before = stickers@;
                stickers.push(StickerStore { id: message.sticker_items[i].id, path: stored });
                assert forall|j: int| 0 <= j < i + 1 implies #[trigger] sticker_stored_at(
                    stickers@,
                    *message,
                    cache@,
                    j,
                ) by {
                    if j < i {
                        assert(sticker_stored_at(before, *message, cache@, j));
                    }
                }
                proof {
                    lemma_grows_on(old(cache)@, known, cache@);
                }
            },
            Err(cause) => {
                proof {
                    lemma_failure_explained(known, cache@, *message, request, *fetch, path);
                    lemma_grows_on(old(cache)@, known, cache@);
                }
                let failed = Err(cause);
                assert(failed matches Err(given) && given == cause);
                return failed;
            },
        }
        i = i + 1;
    }
    Ok(stickers)
}

/// Resolves the emoji of every reaction of the message, in order.
pub fn ensure_reactions<Failure, Fetch: Fn(&AssetPlan) -> Result<(), Failure>>(
    cache: &mut AssetCache,
    message: &Message,
    fetch: &Fetch,
) -> (reactions: Result<Vec<ReactionStore>, Cause<Failure>>)
    requires
        old(cache).wf(),
        forall|plan: &AssetPlan| call_requires(*fetch, (plan,)),
    ensures
        final(cache).wf(),
        old(cache)@.submap_of(final(cache)@),
        match reactions {
            Ok(reactions) => {
                &&& reactions@.len() == message.reactions@.len()
                &&& reactions_stored(reactions@, *message, final(cache)@, reactions@.len() as int)
            },
            Err(cause) => failure_explained(Step::Reaction, cause, *message, *fetch),
        },
        reactions_cached(*message, old(cache)@) ==> reactions is Ok && final(cache)@ == old(
            cache,
        )@,
        only_needed(old(cache)@, final(cache)@, *message),
{
    let mut reactions: Vec<ReactionStore> = Vec::new();
    let mut i: usize = 0;
    while i < message.reactions.len()
        invariant
            i <= message.reactions@.len(),
            cache.wf(),
            old(cache)@.submap_of(cache@),
            reactions@.len() == i,
            reactions_stored(reactions@, *message, cache@, i as int),
            reactions_cached(*message, old(cache)@) ==> cache@ == old(cache)@,
            only_needed(old(cache)@, cache@, *message),
            forall|plan: &AssetPlan| call_requires(*fetch, (plan,)),
        decreases message.reactions@.len() - i,
    {
        let ghost known = cache@;
        let request = AssetRequest::Reaction(i);
        let path = ensure_asset(cache, message, request, fetch);
        assert(reactions_cached(*message, old(cache)@) ==> known.contains_key(
            request_key(*message, AssetRequest::Reaction(i)),
        ));
        proof {
            lemma_only_needed_step(old(cache)@, known, cache@, *message, request, *fetch, path);
        }
        match path {
            Ok(stored) => {
                proof {
                    lemma_stored_grows(
                        Seq::empty(),
                        reactions@,
                        Seq::empty(),
                        *message,
                        known,
                        cache@,
                        0,
                        i as int,
                        0,
                    );
                }
                let ghost before = reactions@;
                reactions.push(ReactionStore { path: stored, count: message.reactions[i].count });
                assert forall|j: int| 0 <= j < i + 1 implies #[trigger] reaction_stored_at(
                    reactions@,
                    *message,
                    cache@,
                    j,
                ) by {
                    if j < i {
                        assert(reaction_stored_at(before, *message, cache@, j));
                    }
                }
                proof {
                    lemma_grows_on(old(cache)@, known, cache@);
                }
            },
            Err(cause) => {
                proof {
                    lemma_failure_explained(known, cache@, *message, request, *fetch, path);
                    lemma_grows_on(old(cache)@, known, cache@);
                }
                let failed = Err(cause);
                assert(failed matches Err(given) && given == cause);
                return failed;
            },
        }
        i = i + 1;
    }
    Ok(reactions)
}

/// Resolves every custom emoji that the text of the message names by a
/// token, whether or not anyone reacted with it.
pub fn ensure_text_emoji<Failure, Fetch: Fn(&AssetPlan) -> Result<(), Failure>>(
    cache: &mut AssetCache,
    message: &Message,
    fetch: &Fetch,
) -> (done: Result<(), Cause<Failure>>)
    requires
        old(cache).wf(),
        forall|plan: &AssetPlan| call_requires(*fetch, (plan,)),
    ensures
        final(cache).wf(),
        old(cache)@.submap_of(final(cache)@),
        match done {
            Ok(_) => text_emoji_stored(
                tokens(message.content@, TokenKind::CustomEmoji),
                final(cache)@,
                tokens(message.content@, TokenKind::CustomEmoji).len() as int,
            ),
            Err(cause) => failure_explained(Step::TextEmoji, cause, *message, *fetch),
        },
        text_emoji_cached(*message, old(cache)@) ==> done is Ok && final(cache)@ == old(cache)@,
        only_needed(old(cache)@, final(cache)@, *message),
{
    let ids = custom_emoji_ids(message.content.as_str());
    let mut i: usize = 0;
    while i < ids.len()
        invariant
            i <= ids@.len(),
            ids@ == tokens(message.content@, TokenKind::CustomEmoji),
            cache.wf(),
            old(cache)@.submap_of(cache@),
            text_emoji_stored(ids@, cache@, i as int),
            text_emoji_cached(*message, old(cache)@) ==> cache@ == old(cache)@,
            only_needed(old(cache)@, cache@, *message),
            forall|plan: &AssetPlan| call_requires(*fetch, (plan,)),
        decreases ids@.len() - i,
    {
        let ghost known = cache@;
        let request = AssetRequest::TextEmoji(ids[i]);
        let path = ensure_asset(cache, message, request, fetch);
        assert(text_emoji_cached(*message, old(cache)@) ==> known.contains_key(
            AssetKeyView::CustomEmoji(ids@[i as int]),
        ));
        proof {
            assert(ids@.contains(ids@[i as int]));
            lemma_only_needed_step(old(cache)@, known, cache@, *message, request, *fetch, path);
        }
        match path {
            Ok(stored) => {
                proof {
                    lemma_stored_grows(
                        Seq::empty(),
                        Seq::empty(),
                        ids@,
                        *message,
                        known,
                        cache@,
                        0,
                        0,
                        i as int,
                    );
                    lemma_grows_on(old(cache)@, known, cache@);
                }
            },
            Err(cause) => {
                proof {
                    lemma_failure_explained(known, cache@, *message, request, *fetch, path);
                    lemma_grows_on(old(cache)@, known, cache@);
                }
                let failed = Err(cause);
                assert(failed matches Err(given) && given == cause);
                return failed;
            },
        }
        i = i + 1;
    }
    Ok(())
}

/// Resolves everything that one message references, in this order: its
/// attachments, its stickers, the author's avatar, the emoji of its
/// reactions and the custom emoji that its text names. The first failure
/// ends the work on the message and names the step it belongs to.
pub fn process_message<Failure, Fetch: Fn(&AssetPlan) -> Result<(), Failure>>(
    cache: &mut AssetCache,
    message: &Message,
    fetch: &Fetch,
) -> (outcome: Result<MessageAssets, ArchiveError<Failure>>)
    requires
        old(cache).wf(),
        forall|plan: &AssetPlan| call_requires(*fetch, (plan,)),
    ensures
        final(cache).wf(),
        old(cache)@.submap_of(final(cache)@),
        match outcome {
            Ok(assets) => assets_of(assets, *message, final(cache)@),
            Err(error) => error.message_id == message.id && failure_explained(
                error.step,
                error.cause,
                *message,
                *fetch,
            ),
        },
        nothing_to_fetch(*message, old(cache)@) ==> outcome is Ok && final(cache)@ == old(
            cache,
        )@,
        only_needed(old(cache)@, final(cache)@, *message),
        outcome is Ok ==> forall|i: int|
            0 <= i < message.attachments@.len() ==> #[trigger] attachment_fetched_at(
                *fetch,
                *message,
                i,
            ),
{
    let attachments = match fetch_attachments(message, fetch) {
        Ok(paths) => paths,
        Err(error) => {
            let cause = Cause::Fetch(error);
            assert(cause matches Cause::Fetch(given) && given == error);
            return Err(fail(message, Step::Attachment, cause));
        },
    };
    let stickers = match ensure_stickers(cache, message, fetch) {
        Ok(stickers) => stickers,
        Err(cause) => {
            return Err(fail(message, Step::Sticker, cause));
        },
    };
    let ghost after_stickers = cache@;
    let request = AssetRequest::Avatar;
    let found = ensure_asset(cache, message, request, fetch);
    let ghost after_avatar = cache@;
    proof {
        lemma_grows_on(old(cache)@, after_stickers, after_avatar);
        lemma_only_needed_step(
            old(cache)@,
            after_stickers,
            after_avatar,
            *message,
            request,
            *fetch,
            found,
        );
    }
    let avatar = match found {
        Ok(stored) => stored,
        Err(cause) => {
            proof {
                lemma_failure_explained(after_stickers, cache@, *message, request, *fetch, found);
            }
            return Err(fail(message, step_of(request), cause));
        },
    };
    let outcome = ensure_reactions(cache, message, fetch);
    let ghost after_reactions = cache@;
    proof {
        lemma_grows_on(old(cache)@, after_avatar, after_reactions);
        lemma_only_needed_on(old(cache)@, after_avatar, after_reactions, *message);
    }
    let reactions = match outcome {
        Ok(reactions) => reactions,
        Err(cause) => {
            return Err(fail(message, Step::Reaction, cause));
        },
    };
    let outcome = ensure_text_emoji(cache, message, fetch);
    proof {
        lemma_grows_on(old(cache)@, after_reactions, cache@);
        lemma_only_needed_on(old(cache)@, after_reactions, cache@, *message);
    }
    match outcome {
        Ok(_) => {},
        Err(cause) => {
            return Err(fail(message, Step::TextEmoji, cause));
        },
    }
    let assets = MessageAssets { attachments, stickers, avatar, reactions };
    proof {
        lemma_assets_assembled(
            assets,
            *message,
            after_stickers,
            after_avatar,
            after_reactions,
            cache@,
        );
    }
    Ok(assets)
}

/// The failure of `message` at `step` with `cause`.
fn fail<Failure>(message: &Message, step: Step, cause: Cause<Failure>) -> (error: ArchiveError<
    Failure,
>)
    ensures
        error.message_id == message.id,
        error.step == step,
        error.cause == cause,
{
    ArchiveError { message_id: message.id, step, cause }
}

/// A mentioned channel whose name could be looked up.
#[derive(Debug, Clone)]
pub struct NamedChannel {
    pub id: u64,
    pub name: String,
}

/// The identifier and the name of a mentioned channel.
pub open spec fn named_view(channel: NamedChannel) -> (u64, Seq<char>) {
    (channel.id, channel.name@)
}

/// The first `n` mentioned channels that have a name, each with its name,
/// in the order of the mentions.
pub open spec fn named(ids: Seq<u64>, names: Seq<Option<String>>, n: int) -> Seq<
    (u64, Seq<char>),
>
    decreases n,
{
    if n <= 0 {
        Seq::empty()
    } else {
        match names[n - 1] {
            Some(name) => named(ids, names, n - 1).push((ids[n - 1], name@)),
            None => named(ids, names, n - 1),
        }
    }
}

/// Pairs every mentioned channel with its name: the name at the same
/// position, as far as both lists reach. A mention whose name could not be
/// looked up is left out; that is no failure.
pub fn named_channels(ids: &Vec<u64>, names: Vec<Option<String>>) -> (channels: Vec<NamedChannel>)
    ensures
        channels@.map_values(|channel: NamedChannel| named_view(channel)) == named(
            ids@,
            names@,
            if ids@.len() <= names@.len() {
                ids@.len() as int
            } else {
                names@.len() as int
            },
        ),
{
    let mut channels: Vec<NamedChannel> = Vec::new();
    let count = if ids.len() <= names.len() {
        ids.len()
    } else {
        names.len()
    };
    let mut i: usize = 0;
    assert(channels@.map_values(|channel: NamedChannel| named_view(channel)) =~= named(
        ids@,
        names@,
        0,
    ));
    while i < count
        invariant
            i <= count,
            count <= ids@.len(),
            count <= names@.len(),
            channels@.map_values(|channel: NamedChannel| named_view(channel)) == named(
                ids@,
                names@,
                i as int,
            ),
        decreases count - i,
    {
        match &names[i] {
            Some(name) => {
                let ghost before = channels@;
                let channel = NamedChannel { id: ids[i], name: name.clone() };
                channels.push(channel);
                assert(channels@.map_values(|channel: NamedChannel| named_view(channel))
                    =~= before.map_values(|channel: NamedChannel| named_view(channel)).push(
                    named_view(channel),
                ));
            },
            None => {},
        }
        i = i + 1;
    }
    channels
}

} // verus!
