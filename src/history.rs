//! The calculation history: one result for each expression.

use crate::textmap::{upsert, TextMap};
use vstd::prelude::*;
use vstd::string::StringExecFns;

verus! {

/// `expression = result` lines, one for each entry, in order.
pub open spec fn history_text(s: Seq<(Seq<char>, Seq<char>)>) -> Seq<char>
    decreases s.len(),
{
    if s.len() == 0 {
        seq![]
    } else {
        history_text(s.drop_last()) + s.last().0 + " = "@ + s.last().1 + "\n"@
    }
}

pub open spec fn entry_views(s: Seq<(Seq<char>, String)>) -> Seq<(Seq<char>, Seq<char>)> {
    s.map_values(|e: (Seq<char>, String)| (e.0, e.1@))
}

/// Expressions and their results; a later result for an expression replaces
/// the earlier one.
pub struct HistoryManager {
    history: TextMap<String>,
}

impl HistoryManager {
    pub closed spec fn view(&self) -> Seq<(Seq<char>, Seq<char>)> {
        entry_views(self.history.view())
    }

    pub closed spec fn wf(&self) -> bool {
        self.history.wf()
    }

    pub fn new() -> (r: Self)
        ensures
            r.wf(),
            r.view() == Seq::<(Seq<char>, Seq<char>)>::empty(),
    {
        let r = HistoryManager { history: TextMap::new() };
        assert(r.view() =~= Seq::<(Seq<char>, Seq<char>)>::empty());
        r
    }

    /// Records `result` for `expression`.
    pub fn add(&mut self, expression: String, result: String)
        requires
            old(self).wf(),
        ensures
            final(self).wf(),
            final(self).view() == upsert(old(self).view(), expression@, result@),
    {
        proof {
            lemma_entry_views_upsert(self.history.view(), expression@, result);
        }
        self.history.insert(expression, result);
    }

    /// All entries, in the order their expressions were first recorded.
    pub fn get_all(&self) -> (r: &Vec<(String, String)>)
        ensures
            r@.map_values(|e: (String, String)| (e.0@, e.1@)) == self.view(),
    {
        let r = self.history.entries();
        assert(r@.map_values(|e: (String, String)| (e.0@, e.1@)) =~= self.view());
        r
    }

    /// Drops every entry.
    pub fn clear(&mut self)
        ensures
            final(self).wf(),
            final(self).view() == Seq::<(Seq<char>, Seq<char>)>::empty(),
    {
        self.history.clear();
        assert(self.view() =~= Seq::<(Seq<char>, Seq<char>)>::empty());
    }

    /// The history as `expression = result` lines.
    pub fn to_string(&self) -> (r: String)
        ensures
            r@ == history_text(self.view()),
    {
        let entries = self.history.entries();
        let ghost ev = self.view();
        let mut out = String::new();
        let mut i: usize = 0;
        while i < entries.len()
            invariant
                ev == self.view(),
                ev == entry_views(entries@.map_values(|e: (String, String)| (e.0@, e.1))),
                i <= entries@.len(),
                out@ == history_text(ev.subrange(0, i as int)),
            decreases entries@.len() - i,
        {
            let (expr, res) = (&entries[i].0, &entries[i].1);
            proof {
                assert(ev.subrange(0, i + 1).drop_last() =~= ev.subrange(0, i as int));
                assert(ev[i as int] == (expr@, res@));
            }
            out.append(expr.as_str());
            out.append(" = ");
            out.append(res.as_str());
            out.append("\n");
            i = i + 1;
        }
        assert(ev.subrange(0, entries@.len() as int) =~= ev);
        out
    }
}

impl Default for HistoryManager {
    fn default() -> (r: Self)
        ensures
            r.wf(),
            r.view() == Seq::<(Seq<char>, Seq<char>)>::empty(),
    {
        HistoryManager::new()
    }
}

pub proof fn lemma_entry_views_index(s: Seq<(Seq<char>, String)>, k: Seq<char>, i: int)
    requires
        0 <= i,
    ensures
        crate::textmap::key_index_from(entry_views(s), k, i) == crate::textmap::key_index_from(
            s,
            k,
            i,
        ),
    decreases s.len() - i,
{
    if i < s.len() {
        assert(entry_views(s)[i].0 == s[i].0);
        lemma_entry_views_index(s, k, i + 1);
    }
}

pub proof fn lemma_entry_views_upsert(s: Seq<(Seq<char>, String)>, k: Seq<char>, v: String)
    ensures
        entry_views(upsert(s, k, v)) == upsert(entry_views(s), k, v@),
{
    lemma_entry_views_index(s, k, 0);
    crate::textmap::lemma_key_index_from(s, k, 0);
    assert(entry_views(upsert(s, k, v)) =~= upsert(entry_views(s), k, v@));
}

} // verus!
