//! The structured summary of a page.

use vstd::prelude::*;

verus! {

/// The mathematical value of a [`Summary`].
pub struct SummaryView {
    pub title: Seq<char>,
    pub conclusion: Seq<char>,
    pub key_points: Seq<Seq<char>>,
    pub entities: Seq<Seq<char>>,
    pub action_items: Seq<Seq<char>>,
}

/// The views of a list of strings, element by element.
pub open spec fn texts(v: Seq<String>) -> Seq<Seq<char>> {
    v.map_values(|s: String| s@)
}

/// Structured summary of a page.
#[derive(Debug, PartialEq, Eq)]
pub struct Summary {
    /// Title or headline for the summarized content
    pub title: String,
    /// Main conclusion or takeaway from the content
    pub conclusion: String,
    /// Main takeaways from the content
    pub key_points: Vec<String>,
    /// Named entities mentioned (people, organizations, technologies, etc.)
    pub entities: Vec<String>,
    /// Actionable items or next steps identified in the content
    pub action_items: Vec<String>,
}

impl View for Summary {
    type V = SummaryView;

    open spec fn view(&self) -> SummaryView {
        SummaryView {
            title: self.title@,
            conclusion: self.conclusion@,
            key_points: texts(self.key_points@),
            entities: texts(self.entities@),
            action_items: texts(self.action_items@),
        }
    }
}

impl SummaryView {
    /// A summary is empty when it holds no key point, no entity and no
    /// action item, whatever its title and conclusion say.
    pub open spec fn is_empty(self) -> bool {
        &&& self.key_points.len() == 0
        &&& self.entities.len() == 0
        &&& self.action_items.len() == 0
    }
}

impl Summary {
    /// Create a new summary
    pub fn new(
        title: String,
        conclusion: String,
        key_points: Vec<String>,
        entities: Vec<String>,
        action_items: Vec<String>,
    ) -> (s: Self)
        ensures
            s.title == title,
            s.conclusion == conclusion,
            s.key_points == key_points,
            s.entities == entities,
            s.action_items == action_items,
    {
        Self { title, conclusion, key_points, entities, action_items }
    }

    /// Check if the summary has any content
    pub fn is_empty(&self) -> (b: bool)
        ensures
            b == self@.is_empty(),
    {
        self.key_points.is_empty() && self.entities.is_empty() && self.action_items.is_empty()
    }
}

/// A copy of a list of texts.
pub fn copy_texts(list: &Vec<String>) -> (copy: Vec<String>)
    ensures
        copy@ == list@,
{
    let mut copy: Vec<String> = Vec::new();
    let mut i: usize = 0;
    while i < list.len()
        invariant
            i <= list@.len(),
            copy@ == list@.take(i as int),
        decreases list@.len() - i,
    {
        copy.push(list[i].clone());
        assert(copy@ =~= list@.take(i + 1));
        i = i + 1;
    }
    assert(list@.take(list@.len() as int) =~= list@);
    copy
}

impl Clone for Summary {
    fn clone(&self) -> (copy: Self)
        ensures
            copy@ == self@,
    {
        Summary {
            title: self.title.clone(),
            conclusion: self.conclusion.clone(),
            key_points: copy_texts(&self.key_points),
            entities: copy_texts(&self.entities),
            action_items: copy_texts(&self.action_items),
        }
    }
}

} // verus!
