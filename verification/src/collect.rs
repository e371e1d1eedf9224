//! Choosing, among the texts found on a page, the ones that are worth rewriting.

use vstd::prelude::*;
use vstd::utf8::encode_utf8;

verus! {

/// The structural predicate of a rewrite candidate, as an XPath expression: an
/// element that holds text and has no child element.
pub fn candidate_selector() -> (selector: &'static str)
    ensures
        selector@ == "//*[text() and not(*)]"@,
{
    "//*[text() and not(*)]"
}

/// One unit of work: an element of the page and the text it showed when the page
/// was collected. `element` is the position of the element among those that the
/// page query returned; the text is a snapshot, and later changes of the page do
/// not reach it.
#[derive(Debug, PartialEq, Eq)]
pub struct RewriteTask {
    pub element: usize,
    pub source_text: String,
}

/// The mathematical value of a [`RewriteTask`].
pub struct RewriteTaskView {
    pub element: int,
    pub source_text: Seq<char>,
}

impl View for RewriteTask {
    type V = RewriteTaskView;

    open spec fn view(&self) -> RewriteTaskView {
        RewriteTaskView { element: self.element as int, source_text: self.source_text@ }
    }
}

impl DeepView for RewriteTask {
    type V = RewriteTaskView;

    open spec fn deep_view(&self) -> RewriteTaskView {
        self@
    }
}

impl Clone for RewriteTask {
    fn clone(&self) -> (copy: Self)
        ensures
            copy == *self,
    {
        RewriteTask { element: self.element, source_text: self.source_text.clone() }
    }
}

/// The length of a text: the number of bytes of its UTF-8 encoding.
pub open spec fn text_length(text: Seq<char>) -> nat {
    encode_utf8(text).len()
}

/// Whether a text is long enough to be rewritten.
pub open spec fn is_candidate(text: Seq<char>, min_length: nat) -> bool {
    text_length(text) >= min_length
}

/// The tasks that a page gives: one for each text that is long enough, in the
/// order of the page, each naming the position of its element.
pub open spec fn candidates(texts: Seq<Seq<char>>, min_length: nat) -> Seq<RewriteTaskView>
    decreases texts.len(),
{
    if texts.len() == 0 {
        Seq::empty()
    } else {
        let before = candidates(texts.drop_last(), min_length);
        if is_candidate(texts.last(), min_length) {
            before.push(RewriteTaskView { element: texts.len() - 1, source_text: texts.last() })
        } else {
            before
        }
    }
}

/// Tells whether one text is long enough to be rewritten.
pub fn qualifies(text: &str, min_length: usize) -> (long_enough: bool)
    ensures
        long_enough == is_candidate(text@, min_length as nat),
{
    text.as_bytes().len() >= min_length
}

/// Makes the tasks of a page from the texts of its elements, in their order:
/// a text shorter than `min_length` bytes is passed over in silence.
pub fn collect_candidates(texts: &Vec<String>, min_length: usize) -> (tasks: Vec<RewriteTask>)
    ensures
        tasks.deep_view() == candidates(texts.deep_view(), min_length as nat),
{
    let mut tasks: Vec<RewriteTask> = Vec::new();
    let mut i: usize = 0;
    while i < texts.len()
        invariant
            i <= texts.len(),
            tasks.deep_view() == candidates(texts.deep_view().take(i as int), min_length as nat),
        decreases texts.len() - i,
    {
        let ghost seen = texts.deep_view().take(i as int);
        let ghost next = texts.deep_view().take(i + 1);
        let ghost before = tasks.deep_view();
        assert(next.drop_last() =~= seen);
        assert(next.last() == texts[i as int]@);
        if qualifies(texts[i].as_str(), min_length) {
            tasks.push(RewriteTask { element: i, source_text: texts[i].clone() });
            assert(tasks.deep_view() =~= before.push(
                RewriteTaskView { element: i as int, source_text: texts[i as int]@ },
            ));
        }
        i += 1;
    }
    assert(texts.deep_view().take(texts.len() as int) =~= texts.deep_view());
    tasks
}

/// What `candidates` keeps and what it drops: every task names an element of the
/// page whose text is long enough and carries that text; the elements come in
/// rising order; and every element whose text is long enough has its task.
pub proof fn lemma_candidates_are_the_long_texts(texts: Seq<Seq<char>>, min_length: nat)
    ensures
        candidates(texts, min_length).len() <= texts.len(),
        forall|k: int|
            0 <= k < candidates(texts, min_length).len() ==> {
                let task = #[trigger] candidates(texts, min_length)[k];
                &&& 0 <= task.element < texts.len()
                &&& task.source_text == texts[task.element]
                &&& is_candidate(task.source_text, min_length)
            },
        forall|j: int, k: int|
            0 <= j < k < candidates(texts, min_length).len() ==> (#[trigger] candidates(
                texts,
                min_length,
            )[j]).element < (#[trigger] candidates(texts, min_length)[k]).element,
        forall|e: int|
            0 <= e < texts.len() && is_candidate(#[trigger] texts[e], min_length) ==> exists|k: int|
                0 <= k < candidates(texts, min_length).len() && (#[trigger] candidates(
                    texts,
                    min_length,
                )[k]).element == e,
    decreases texts.len(),
{
    if texts.len() > 0 {
        let shorter = texts.drop_last();
        lemma_candidates_are_the_long_texts(shorter, min_length);
        let before = candidates(shorter, min_length);
        let all = candidates(texts, min_length);
        assert forall|e: int|
            0 <= e < texts.len() && is_candidate(#[trigger] texts[e], min_length) implies exists|
            k: int,
        |
            0 <= k < all.len() && (#[trigger] all[k]).element == e by {
            if e < texts.len() - 1 {
                assert(shorter[e] == texts[e]);
                let k = choose|k: int| 0 <= k < before.len() && (#[trigger] before[k]).element == e;
                assert(all[k] == before[k]);
            } else {
                assert(all[all.len() - 1].element == e);
            }
        }
    }
}

} // verus!
