//! What holds of the converter whatever the picture: how a run of steps ends,
//! how progress moves, which clusters reach the document, what the document
//! owes to the options, and how the paths can be counted in its text.
//!
//! Each law is stated over [`ConverterModel`] and [`SvgModel`], the models
//! that the contracts of the executable functions speak of.

use vstd::prelude::*;

use crate::color::{black, Color};
use crate::converter::{constructed, ConverterModel, StepError};
use crate::image::classified;
use crate::state::StateModel;
use crate::svg::{
    document_tail, joined, path_element, text_or, OptionsModel, PathModel, SvgModel,
};
use crate::text::{
    closes, count_between, free_of, lemma_count_none, lemma_count_split, lemma_occurrences_add,
    lemma_stands_on_first, occurrences, stands_at,
};

verus! {

/// How many of the given clusters are no speckles.
pub open spec fn retained_count(sizes: Seq<nat>, filter: nat) -> nat
    decreases sizes.len(),
{
    if sizes.len() == 0 {
        0
    } else {
        retained_count(sizes.drop_last(), filter) + if sizes.last() >= filter {
            1nat
        } else {
            0nat
        }
    }
}

impl ConverterModel {
    /// The converter after a run of steps, one for each entry of `outlines`,
    /// each with the outline that came with it.
    pub open spec fn after_steps(self, outlines: Seq<Option<PathModel>>) -> ConverterModel
        decreases outlines.len(),
    {
        if outlines.len() == 0 {
            self
        } else {
            self.after_steps(outlines.drop_last()).step(outlines.last())
        }
    }

    /// Whether every step of the run finds what it needs: none fails.
    pub open spec fn served(self, outlines: Seq<Option<PathModel>>) -> bool
        decreases outlines.len(),
    {
        outlines.len() == 0 || (self.served(outlines.drop_last()) && self.after_steps(
            outlines.drop_last(),
        ).step_result(outlines.last()) is Ok)
    }
}

/// A step keeps a converter well formed, and touches nothing but the counter
/// and the path elements: the picture, the clusters, the threshold, the mode
/// and the options stay.
pub proof fn lemma_step_keeps(s: ConverterModel, outline: Option<PathModel>)
    requires
        s.well_formed(),
    ensures
        s.step(outline).well_formed(),
        s.step(outline).width == s.width,
        s.step(outline).height == s.height,
        s.step(outline).pixels == s.pixels,
        s.step(outline).mode == s.mode,
        s.step(outline).filter == s.filter,
        s.step(outline).regions == s.regions,
        s.step(outline).svg.options == s.svg.options,
        s.counter <= s.step(outline).counter <= s.counter + 1,
{
}

/// Looking for the clusters keeps a converter well formed.
pub proof fn lemma_initialized_keeps(s: ConverterModel)
    requires
        s.well_formed(),
    ensures
        s.initialized().well_formed(),
        s.initialized().counter == 0,
        s.initialized().svg == s.svg,
{
}

/// Done is final: on a converter that is done, a step answers `true` and
/// changes nothing, whatever comes with it.
pub proof fn lemma_done_is_final(s: ConverterModel, outline: Option<PathModel>)
    requires
        s.done(),
    ensures
        s.step_result(outline) == Ok::<bool, StepError>(true),
        s.step(outline) == s,
{
}

/// A step before the clusters are looked for is refused, and changes
/// nothing.
pub proof fn lemma_step_needs_clusters(s: ConverterModel, outline: Option<PathModel>)
    requires
        s.regions is None,
    ensures
        s.step_result(outline) == Err::<bool, StepError>(StepError::NotInitialized),
        s.step(outline) == s,
{
}

/// A step answers `false` only while clusters are left after it, and it takes
/// a cluster whenever one is left: after a step that succeeds, the counter is
/// one further, or the converter was done already.
pub proof fn lemma_step_takes_one(s: ConverterModel, outline: Option<PathModel>)
    requires
        s.well_formed(),
        s.step_result(outline) is Ok,
    ensures
        s.step_result(outline)->Ok_0 == s.step(outline).done(),
        s.done() || s.step(outline).counter == s.counter + 1,
{
}

/// Where a run of steps leads. After a run in which no step fails, the
/// counter has moved by the length of the run, or to the number of clusters
/// if that is nearer; the path elements that were there are still there, in
/// front; and as many have joined them as there are clusters that are no
/// speckles among those that the run took.
pub proof fn lemma_run(s: ConverterModel, outlines: Seq<Option<PathModel>>)
    requires
        s.well_formed(),
        s.regions is Some,
        s.served(outlines),
    ensures
        s.after_steps(outlines).well_formed(),
        s.after_steps(outlines).regions == s.regions,
        s.after_steps(outlines).filter == s.filter,
        s.after_steps(outlines).svg.options == s.svg.options,
        s.after_steps(outlines).counter == if s.counter + outlines.len() <= s.total() {
            s.counter + outlines.len()
        } else {
            s.total()
        },
        s.svg.fragments.is_prefix_of(s.after_steps(outlines).svg.fragments),
        s.after_steps(outlines).svg.fragments.len() == s.svg.fragments.len() + retained_count(
            s.sizes().subrange(s.counter as int, s.after_steps(outlines).counter as int),
            s.filter,
        ),
    decreases outlines.len(),
{
    if outlines.len() == 0 {
        assert(s.sizes().subrange(s.counter as int, s.counter as int) =~= Seq::<nat>::empty());
    } else {
        let before = s.after_steps(outlines.drop_last());
        let after = before.step(outlines.last());
        lemma_run(s, outlines.drop_last());
        if before.counter < before.total() {
            let taken = s.sizes().subrange(s.counter as int, after.counter as int);
            assert(taken.drop_last() =~= s.sizes().subrange(
                s.counter as int,
                before.counter as int,
            ));
            assert(taken.last() == s.sizes()[before.counter as int]);
        }
    }
}

/// What the steps of a run answer. In a run from the first cluster in which
/// no step fails, step number `k`, counted from 1, answers `false` while
/// `k` is less than the number of clusters, and `true` from then on. So a
/// converter of `n` clusters, `n` at least 1, answers `false` to `n - 1`
/// steps and `true` to step `n`; one without clusters answers `true` at
/// once.
pub proof fn lemma_answers(
    s: ConverterModel,
    outlines: Seq<Option<PathModel>>,
    outline: Option<PathModel>,
)
    requires
        s.well_formed(),
        s.regions is Some,
        s.counter == 0,
        s.served(outlines),
        s.after_steps(outlines).step_result(outline) is Ok,
    ensures
        s.after_steps(outlines).step_result(outline) == Ok::<bool, StepError>(
            outlines.len() + 1 >= s.total(),
        ),
{
    lemma_run(s, outlines);
}

/// A picture without clusters is done as soon as they have been looked for:
/// the first step answers `true` and changes nothing, progress is 100, and
/// the document, if no path was in it before, is a group without paths.
pub proof fn lemma_nothing_to_do(s: ConverterModel, outline: Option<PathModel>)
    requires
        s.regions is Some,
        s.total() == 0,
        s.counter == 0,
    ensures
        s.done(),
        s.step_result(outline) == Ok::<bool, StepError>(true),
        s.step(outline) == s,
        s.progress() == 100,
        s.svg.fragments.len() == 0 ==> s.svg.document() == s.svg.head() + document_tail(),
{
    if s.svg.fragments.len() == 0 {
        assert(s.svg.head() + joined(s.svg.fragments) =~= s.svg.head());
    }
}

/// What construction makes is a converter at its start: well formed, its
/// picture classified pixel by pixel, its clusters not looked for yet, no
/// cluster taken, no path in the document, progress at 0.
pub proof fn lemma_constructed_is_fresh(
    data: Seq<u8>,
    width: nat,
    height: nat,
    mode: Seq<char>,
    filter: nat,
    invert: Option<bool>,
    options: OptionsModel,
)
    requires
        constructed(data, width, height, mode, filter, invert, options) is Ok,
    ensures
        ({
            let made = constructed(data, width, height, mode, filter, invert, options)->Ok_0;
            &&& made.well_formed()
            &&& made.pixels == classified(data, width, height, invert == Some(true))
            &&& made.filter == filter
            &&& made.regions is None
            &&& made.counter == 0
            &&& made.progress() == 0
            &&& made.svg == SvgModel::empty(options)
            &&& made.svg.document() == made.svg.head() + document_tail()
        }),
{
    let made = constructed(data, width, height, mode, filter, invert, options)->Ok_0;
    assert(made.svg.head() + joined(made.svg.fragments) =~= made.svg.head());
}

/// The share that is taken never goes back: taking a cluster leaves it where
/// it was or moves it up, and it never passes 100.
pub proof fn lemma_percent_grows(s: StateModel)
    requires
        s.well_formed(),
    ensures
        s.advanced().well_formed(),
        s.percent() <= s.advanced().percent() <= 100,
{
    if s.total > 0 {
        let all = s.total as int;
        let was = s.counter as int;
        let is = s.advanced().counter as int;
        assert(100 * was / all <= 100 * is / all <= 100) by (nonlinear_arith)
            requires
                0 <= was <= is <= all,
                all > 0,
        ;
    }
}

/// The share that is taken is 100 when every cluster is taken, and only
/// then; and it is 0 when none is taken, if there is one to take.
pub proof fn lemma_percent_ends(s: StateModel)
    requires
        s.well_formed(),
    ensures
        s.percent() == 100 <==> s.done(),
        s.counter == 0 && s.total > 0 ==> s.percent() == 0,
{
    if s.total > 0 {
        let all = s.total as int;
        let taken = s.counter as int;
        if taken < all {
            assert(0 <= 100 * taken / all < 100) by (nonlinear_arith)
                requires
                    0 <= taken < all,
            ;
            assert(taken == 0 ==> 100 * taken / all == 0) by (nonlinear_arith)
                requires
                    all > 0,
            ;
        } else {
            assert(100 * taken / all == 100) by (nonlinear_arith)
                requires
                    taken == all,
                    all > 0,
            ;
        }
    }
}

/// Progress never goes back: a step leaves it where it was or moves it up.
pub proof fn lemma_progress_grows(s: ConverterModel, outline: Option<PathModel>)
    requires
        s.well_formed(),
    ensures
        s.progress() <= s.step(outline).progress() <= 100,
{
    lemma_percent_grows(s.state());
}

/// Progress is 100 when the converter is done, and only then.
pub proof fn lemma_progress_full_iff_done(s: ConverterModel)
    requires
        s.well_formed(),
    ensures
        s.progress() == 100 <==> s.done(),
{
    lemma_percent_ends(s.state());
}

/// Progress starts at 0: it is 0 before the clusters are looked for, and 0
/// again once they have been, if there is a cluster at all.
pub proof fn lemma_progress_starts_at_zero(s: ConverterModel)
    requires
        s.regions is None || s.initialized().total() > 0,
    ensures
        s.regions is None ==> s.progress() == 0,
        s.initialized().total() > 0 ==> s.initialized().progress() == 0,
{
    lemma_percent_ends(s.initialized().state());
}

/// A cluster reaches the document when it is no speckle, and only then: a
/// step that takes a cluster adds one path element, at the end, if the
/// cluster has at least as many pixels as the threshold asks for, and leaves
/// the path elements alone if it has fewer. The element that it adds is that
/// of the outline that came with the step, filled with the fill of the
/// options, or in black where they name none.
pub proof fn lemma_drawn_iff_no_speckle(s: ConverterModel, outline: Option<PathModel>)
    requires
        s.well_formed(),
        s.regions is Some,
        s.counter < s.total(),
        s.step_result(outline) is Ok,
    ensures
        s.sizes()[s.counter as int] >= s.filter ==> {
            &&& outline is Some
            &&& s.step(outline).svg.fragments == s.svg.fragments.push(
                path_element(
                    outline->0.d,
                    outline->0.x,
                    outline->0.y,
                    s.svg.options.fill_for(black()),
                ),
            )
        },
        s.sizes()[s.counter as int] < s.filter ==> s.step(outline).svg.fragments
            == s.svg.fragments,
{
}

/// A higher threshold never lets more clusters through, and a lower one
/// never fewer.
pub proof fn lemma_threshold_is_monotone(sizes: Seq<nat>, lower: nat, higher: nat)
    requires
        lower <= higher,
    ensures
        retained_count(sizes, higher) <= retained_count(sizes, lower) <= sizes.len(),
    decreases sizes.len(),
{
    if sizes.len() > 0 {
        lemma_threshold_is_monotone(sizes.drop_last(), lower, higher);
    }
}

/// The same picture under two thresholds: run each conversion from the first
/// cluster to the end, and the one with the higher threshold has drawn no
/// more paths than the other.
pub proof fn lemma_higher_threshold_fewer_paths(
    low: ConverterModel,
    high: ConverterModel,
    low_run: Seq<Option<PathModel>>,
    high_run: Seq<Option<PathModel>>,
)
    requires
        low.well_formed(),
        high.well_formed(),
        low.regions is Some,
        high.regions == low.regions,
        low.filter <= high.filter,
        low.counter == 0,
        high.counter == 0,
        low.svg.fragments.len() == 0,
        high.svg.fragments.len() == 0,
        low.served(low_run),
        high.served(high_run),
        low.after_steps(low_run).done(),
        high.after_steps(high_run).done(),
    ensures
        low.after_steps(low_run).svg.fragments.len() == retained_count(low.sizes(), low.filter),
        high.after_steps(high_run).svg.fragments.len() == retained_count(
            high.sizes(),
            high.filter,
        ),
        high.after_steps(high_run).svg.fragments.len() <= low.after_steps(
            low_run,
        ).svg.fragments.len(),
{
    lemma_run(low, low_run);
    lemma_run(high, high_run);
    assert(low.sizes().subrange(0, low.total() as int) =~= low.sizes());
    assert(high.sizes().subrange(0, high.total() as int) =~= high.sizes());
    lemma_threshold_is_monotone(low.sizes(), low.filter, high.filter);
}

/// The document is made of the picture, the threshold, the options and the
/// outlines, and of nothing else: two converters that agree on these, each
/// with its clusters looked for and then taken through the same run, hold
/// the same document, whatever else they differ in and wherever they stood
/// before.
pub proof fn lemma_same_input_same_document(
    a: ConverterModel,
    b: ConverterModel,
    outlines: Seq<Option<PathModel>>,
)
    requires
        a.width == b.width,
        a.height == b.height,
        a.pixels == b.pixels,
        a.filter == b.filter,
        a.svg == b.svg,
    ensures
        a.initialized().after_steps(outlines).svg == b.initialized().after_steps(outlines).svg,
        a.initialized().after_steps(outlines).counter == b.initialized().after_steps(
            outlines,
        ).counter,
        a.initialized().after_steps(outlines).svg.document() == b.initialized().after_steps(
            outlines,
        ).svg.document(),
    decreases outlines.len(),
{
    if outlines.len() > 0 {
        lemma_same_input_same_document(a, b, outlines.drop_last());
        lemma_after_steps_keeps(a.initialized(), outlines.drop_last());
        lemma_after_steps_keeps(b.initialized(), outlines.drop_last());
    }
}

/// A run of steps, like each step, leaves the clusters and the threshold as
/// they were.
pub proof fn lemma_after_steps_keeps(s: ConverterModel, outlines: Seq<Option<PathModel>>)
    ensures
        s.after_steps(outlines).regions == s.regions,
        s.after_steps(outlines).filter == s.filter,
        s.after_steps(outlines).svg.options == s.svg.options,
    decreases outlines.len(),
{
    if outlines.len() > 0 {
        lemma_after_steps_keeps(s, outlines.drop_last());
    }
}

/// The options reach the document as they are. The document opens with the
/// root element and the group; in them stand the background, the further
/// attributes and the scale, each as it was given, or `white`, nothing and
/// `1` where it was not. Adding a path changes none of this.
pub proof fn lemma_document_opens_with_options(svg: SvgModel, path: PathModel, color: Color)
    ensures
        svg.head().is_prefix_of(svg.document()),
        svg.head() == "<svg xmlns=\"http://www.w3.org/2000/svg\" style=\"background:"@ + text_or(
            svg.options.background,
            "white"@,
        ) + ";\" "@ + text_or(svg.options.attributes, Seq::empty()) + "><g transform=\"scale("@
            + text_or(svg.options.scale, "1"@) + ")\">"@,
        svg.with_path(path, color).head() == svg.head(),
{
    let rest = joined(svg.fragments) + document_tail();
    assert(svg.document() =~= svg.head() + rest);
    assert((svg.head() + rest).subrange(0, svg.head().len() as int) =~= svg.head());
}

/// The path elements stand in the document in the order in which they were
/// added: a document without paths is the opening tags and the closing
/// tags, and adding a path puts its element after the elements that are
/// there, right before the closing tags. The element is filled with the fill
/// of the options, or with the colour that came with the path where the
/// options name none.
pub proof fn lemma_document_of_paths(svg: SvgModel, path: PathModel, color: Color)
    ensures
        SvgModel::empty(svg.options).document() == svg.head() + document_tail(),
        svg.with_path(path, color).document() == svg.head() + joined(svg.fragments)
            + path_element(path.d, path.x, path.y, svg.options.fill_for(color))
            + document_tail(),
{
    let element = path_element(path.d, path.x, path.y, svg.options.fill_for(color));
    assert(svg.fragments.push(element).drop_last() =~= svg.fragments);
    assert(svg.head() + joined(Seq::<Seq<char>>::empty()) =~= svg.head());
}

/// The opening of a `path` element, by which the paths of a document are
/// counted.
pub open spec fn path_tag() -> Seq<char> {
    "<path"@
}

/// Whether a text is plain: it holds no `<`, so no tag opens in it.
pub open spec fn plain(text: Seq<char>) -> bool {
    free_of(text, '<')
}

/// Whether a path element is counted once: the opening of a `path` element
/// stands in it at one place, and cannot stand across its end.
pub open spec fn one_path(element: Seq<char>) -> bool {
    closes(element, path_tag()) && occurrences(element, path_tag()) == 1
}

impl PathModel {
    /// Whether the path data and the two coordinates are plain.
    pub open spec fn plain(self) -> bool {
        plain(self.d) && plain(self.x) && plain(self.y)
    }
}

impl SvgModel {
    /// Whether each path element of the document is counted once.
    pub open spec fn counted(self) -> bool {
        forall|i: int| 0 <= i < self.fragments.len() ==> one_path(#[trigger] self.fragments[i])
    }
}

/// A path element that is made of plain texts is counted once.
pub proof fn lemma_element_is_one_path(d: Seq<char>, x: Seq<char>, y: Seq<char>, fill: Seq<char>)
    requires
        plain(d),
        plain(x),
        plain(y),
        plain(fill),
    ensures
        one_path(path_element(d, x, y, fill)),
{
    reveal_strlit("<path");
    reveal_strlit("<path d=\"");
    reveal_strlit("\" transform=\"translate(");
    reveal_strlit(",");
    reveal_strlit(")\" style=\"fill:");
    reveal_strlit("\"/>");
    let tag = path_tag();
    let element = path_element(d, x, y, fill);
    let n = element.len() as int;
    assert(element.subrange(0, 5) =~= tag);
    assert(stands_at(element, tag, 0));
    assert forall|i: int| 1 <= i < n implies !stands_at(element, tag, i) by {
        if stands_at(element, tag, i) {
            lemma_stands_on_first(element, tag, i);
        }
    }
    lemma_count_none(element, tag, 1, n);
    lemma_count_split(element, tag, 0, 1, n);
    assert(count_between(element, tag, 0, 1) == 1) by {
        assert(count_between(element, tag, 0, 0) == 0);
    }
    assert(element.last() == '>');
}

/// Path elements that are each counted once, laid end to end, are counted
/// as many times as there are of them.
pub proof fn lemma_joined_count(elements: Seq<Seq<char>>)
    requires
        forall|i: int| 0 <= i < elements.len() ==> one_path(#[trigger] elements[i]),
    ensures
        occurrences(joined(elements), path_tag()) == elements.len(),
        elements.len() == 0 ==> joined(elements).len() == 0,
        elements.len() > 0 ==> closes(joined(elements), path_tag()),
    decreases elements.len(),
{
    if elements.len() > 0 {
        let before = elements.drop_last();
        lemma_joined_count(before);
        assert(one_path(elements[elements.len() - 1]));
        lemma_occurrences_add(joined(before), elements.last(), path_tag());
        assert((joined(before) + elements.last()).last() == elements.last().last());
    }
}

/// The paths of a document can be counted in its text. Where each path
/// element is counted once, the opening of a `path` element stands in the
/// document once for each path element, and besides that as often as it
/// stands in the opening tags, where only the options can have put it.
pub proof fn lemma_paths_in_text(svg: SvgModel)
    requires
        svg.counted(),
    ensures
        occurrences(svg.document(), path_tag()) == occurrences(svg.head(), path_tag())
            + svg.fragments.len(),
{
    reveal_strlit("<path");
    reveal_strlit(")\">");
    reveal_strlit("</g></svg>");
    let tag = path_tag();
    let head = svg.head();
    let body = joined(svg.fragments);
    let tail = document_tail();
    lemma_joined_count(svg.fragments);
    assert(head.last() == '>');
    lemma_occurrences_add(head, body, tag);
    assert(closes(head + body, tag)) by {
        if body.len() == 0 {
            assert(head + body =~= head);
        } else {
            assert((head + body).last() == body.last());
        }
    }
    lemma_occurrences_add(head + body, tail, tag);
    assert forall|i: int| 0 <= i < tail.len() implies !stands_at(tail, tag, i) by {
        if stands_at(tail, tag, i) {
            assert(tail.subrange(i, i + 5)[0] == tag[0]);
            assert(tail.subrange(i, i + 5)[1] == tag[1]);
        }
    }
    lemma_count_none(tail, tag, 0, tail.len() as int);
}

/// Adding a plain outline to a document whose path elements are each
/// counted once leaves it such a document, if the fill that the options
/// name, where they name one, is plain too.
pub proof fn lemma_with_path_counted(svg: SvgModel, path: PathModel, color: Color)
    requires
        svg.counted(),
        path.plain(),
        svg.options.fill is Some ==> plain(svg.options.fill->0),
    ensures
        svg.with_path(path, color).counted(),
{
    assert(plain(svg.options.fill_for(color)));
    lemma_element_is_one_path(path.d, path.x, path.y, svg.options.fill_for(color));
}

/// Whether every outline that comes with a run is plain.
pub open spec fn plain_run(outlines: Seq<Option<PathModel>>) -> bool {
    forall|k: int|
        0 <= k < outlines.len() && (#[trigger] outlines[k]) is Some ==> outlines[k]->0.plain()
}

/// A run of steps with plain outlines leaves a document whose path elements
/// are each counted once such a document, if the fill that the options name,
/// where they name one, is plain too.
pub proof fn lemma_run_counted(s: ConverterModel, outlines: Seq<Option<PathModel>>)
    requires
        s.svg.counted(),
        s.svg.options.fill is Some ==> plain(s.svg.options.fill->0),
        plain_run(outlines),
    ensures
        s.after_steps(outlines).svg.counted(),
    decreases outlines.len(),
{
    if outlines.len() > 0 {
        let before = s.after_steps(outlines.drop_last());
        assert(plain_run(outlines.drop_last())) by {
            assert forall|k: int|
                0 <= k < outlines.drop_last().len() && (#[trigger] outlines.drop_last()[k])
                    is Some implies outlines.drop_last()[k]->0.plain() by {
                assert(outlines.drop_last()[k] == outlines[k]);
            }
        }
        lemma_run_counted(s, outlines.drop_last());
        lemma_after_steps_keeps(s, outlines.drop_last());
        if outlines.last() is Some {
            assert(outlines[outlines.len() - 1]->0.plain());
            lemma_with_path_counted(before.svg, outlines.last()->0, black());
        }
    }
}

/// The same picture under two thresholds, counted in the text. Take two
/// converters that differ in nothing but the threshold, run each from the
/// first cluster to the end, with plain outlines: then the opening of a
/// `path` element stands in each document once for each cluster that is no
/// speckle under its threshold, besides the places in the opening tags, which
/// are the same in both; so it stands in the document of the higher threshold
/// no more often than in that of the lower.
pub proof fn lemma_higher_threshold_fewer_paths_in_text(
    low: ConverterModel,
    high: ConverterModel,
    low_run: Seq<Option<PathModel>>,
    high_run: Seq<Option<PathModel>>,
)
    requires
        low.well_formed(),
        high.well_formed(),
        low.regions is Some,
        high.regions == low.regions,
        low.filter <= high.filter,
        low.counter == 0,
        high.counter == 0,
        low.svg == high.svg,
        low.svg.fragments.len() == 0,
        low.svg.options.fill is Some ==> plain(low.svg.options.fill->0),
        plain_run(low_run),
        plain_run(high_run),
        low.served(low_run),
        high.served(high_run),
        low.after_steps(low_run).done(),
        high.after_steps(high_run).done(),
    ensures
        occurrences(low.after_steps(low_run).svg.document(), path_tag()) == occurrences(
            low.svg.head(),
            path_tag(),
        ) + retained_count(low.sizes(), low.filter),
        occurrences(high.after_steps(high_run).svg.document(), path_tag()) == occurrences(
            low.svg.head(),
            path_tag(),
        ) + retained_count(low.sizes(), high.filter),
        occurrences(high.after_steps(high_run).svg.document(), path_tag()) <= occurrences(
            low.after_steps(low_run).svg.document(),
            path_tag(),
        ),
{
    lemma_higher_threshold_fewer_paths(low, high, low_run, high_run);
    lemma_run_counted(low, low_run);
    lemma_run_counted(high, high_run);
    lemma_after_steps_keeps(low, low_run);
    lemma_after_steps_keeps(high, high_run);
    lemma_paths_in_text(low.after_steps(low_run).svg);
    lemma_paths_in_text(high.after_steps(high_run).svg);
}

} // verus!
