//! The suggestion table: which shell command generates candidate values
//! for a variable under a tag.  The table is built by an outside
//! collaborator and read here, first matching row first.

use vstd::prelude::*;

use crate::text::str_eq;

verus! {

/// The shell command registered for one tag and variable pair.
#[derive(Debug, Clone)]
pub struct SuggestionEntry {
    pub command: String,
}

/// One registration: a tag, a variable name, and its entry.
#[derive(Debug, Clone)]
pub struct SuggestionRow {
    pub tag: String,
    pub varname: String,
    pub entry: SuggestionEntry,
}

/// All registrations, in the order they were made.
#[derive(Debug, Clone)]
pub struct SuggestionTable {
    pub rows: Vec<SuggestionRow>,
}

/// The command of the first row registered for `tag` and `var`, if any.
pub open spec fn lookup_spec(rows: Seq<SuggestionRow>, tag: Seq<char>, var: Seq<char>) -> Option<
    Seq<char>,
>
    decreases rows.len(),
{
    if rows.len() == 0 {
        None
    } else if rows[0].tag@ == tag && rows[0].varname@ == var {
        Some(rows[0].entry.command@)
    } else {
        lookup_spec(rows.skip(1), tag, var)
    }
}

impl SuggestionTable {
    /// The command registered for `tag` and `var`, if any.
    pub open spec fn lookup(&self, tag: Seq<char>, var: Seq<char>) -> Option<Seq<char>> {
        lookup_spec(self.rows@, tag, var)
    }

    /// A table with nothing registered.
    pub fn new() -> (r: SuggestionTable)
        ensures
            r.rows@.len() == 0,
    {
        SuggestionTable { rows: Vec::new() }
    }

    /// Register a command for a tag and variable pair.
    pub fn add(&mut self, tag: String, varname: String, command: String)
        ensures
            final(self).rows@ == old(self).rows@.push(
                (SuggestionRow { tag, varname, entry: SuggestionEntry { command } }),
            ),
    {
        self.rows.push(SuggestionRow { tag, varname, entry: SuggestionEntry { command } });
    }

    /// Find the entry registered for `tag` and `varname`: the first
    /// matching row wins, and `None` says a lookup miss.
    pub fn get(&self, tag: &str, varname: &str) -> (r: Option<&SuggestionEntry>)
        ensures
            match r {
                None => self.lookup(tag@, varname@) is None,
                Some(e) => self.lookup(tag@, varname@) == Some(e.command@),
            },
    {
        let n = self.rows.len();
        let mut i: usize = 0;
        proof {
            assert(self.rows@.skip(0) =~= self.rows@);
        }
        while i < n
            invariant
                n == self.rows@.len(),
                i <= n,
                lookup_spec(self.rows@, tag@, varname@) == lookup_spec(
                    self.rows@.skip(i as int),
                    tag@,
                    varname@,
                ),
            decreases n - i,
        {
            let row = &self.rows[i];
            proof {
                assert(self.rows@.skip(i as int)[0] == self.rows@[i as int]);
            }
            if str_eq(row.tag.as_str(), tag) && str_eq(row.varname.as_str(), varname) {
                return Some(&row.entry);
            }
            proof {
                assert(self.rows@.skip(i as int).skip(1) =~= self.rows@.skip(i + 1));
            }
            i = i + 1;
        }
        proof {
            assert(self.rows@.skip(n as int).len() == 0);
        }
        None
    }
}

} // verus!
