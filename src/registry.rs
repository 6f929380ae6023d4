//! The registry: tools by name, plus an index of named categories.

use crate::definition::ToolDefinition;
use crate::error::OrchestraError;
use crate::execution::{SimpleToolImpl, ToolHandler};
use crate::json::{
    entries_view, key_index, lemma_key_index_absent, lemma_key_index_found, lookup, no_entries,
    object_of, push_entry, set_entry, str_eq, JsonValue, JsonView,
};
use crate::result::ToolResult;
use vstd::pervasive::VecAdditionalExecFns;
use vstd::prelude::*;
use vstd::string::StringExecFns;

verus! {

/// The characters of each string, in order.
pub open spec fn strs_view(v: Seq<String>) -> Seq<Seq<char>> {
    Seq::new(v.len(), |i: int| v[i]@)
}

/// `members` with `name` appended unless it is already there.
pub open spec fn add_member(members: Seq<Seq<char>>, name: Seq<char>) -> Seq<Seq<char>> {
    if members.contains(name) {
        members
    } else {
        members.push(name)
    }
}

/// `members` without any occurrence of `name`, order kept.
pub open spec fn without(members: Seq<Seq<char>>, name: Seq<char>) -> Seq<Seq<char>>
    decreases members.len(),
{
    if members.len() == 0 {
        members
    } else {
        let rest = without(members.drop_last(), name);
        if members.last() == name {
            rest
        } else {
            rest.push(members.last())
        }
    }
}

/// A registry of tools keyed by name, with a category index.
#[derive(Debug)]
pub struct ToolRegistry<H> {
    tools: Vec<SimpleToolImpl<H>>,
    categories: Vec<(String, Vec<String>)>,
}

impl<H> ToolRegistry<H> {
    /// The registered tools, in registration order.
    pub closed spec fn tools_view(self) -> Seq<SimpleToolImpl<H>> {
        self.tools@
    }

    /// Each category name with its member tool names, in creation order.
    pub closed spec fn categories_view(self) -> Seq<(Seq<char>, Seq<Seq<char>>)> {
        Seq::new(
            self.categories@.len(),
            |i: int| (self.categories@[i].0@, strs_view(self.categories@[i].1@)),
        )
    }

    /// The registered names, in registration order.
    pub open spec fn names(self) -> Seq<Seq<char>> {
        Seq::new(self.tools_view().len(), |i: int| self.tools_view()[i].definition.name@)
    }

    /// The registered definitions keyed by name.
    pub open spec fn entries(self) -> Seq<(Seq<char>, ToolDefinition)> {
        Seq::new(
            self.tools_view().len(),
            |i: int| (self.tools_view()[i].definition.name@, self.tools_view()[i].definition),
        )
    }

    /// Whether a tool named `name` is registered.
    pub open spec fn contains(self, name: Seq<char>) -> bool {
        key_index(self.entries(), name) >= 0
    }

    /// The registered tool named `name` (meaningful when `contains(name)`).
    pub open spec fn tool_named(self, name: Seq<char>) -> SimpleToolImpl<H> {
        self.tools_view()[key_index(self.entries(), name)]
    }

    /// The members of `category`; empty for an unknown category.
    pub open spec fn members(self, category: Seq<char>) -> Seq<Seq<char>> {
        match lookup(self.categories_view(), category) {
            Some(m) => m,
            None => Seq::empty(),
        }
    }

    /// Names are unique, every definition is valid, and no category lists a
    /// tool twice.
    pub open spec fn wf(self) -> bool {
        &&& self.names().no_duplicates()
        &&& forall|i: int|
            0 <= i < self.tools_view().len() ==> (#[trigger] self.tools_view()[i]).definition.spec_problem() is None
        &&& forall|i: int|
            0 <= i < self.categories_view().len() ==> (#[trigger] self.categories_view()[i]).1.no_duplicates()
    }

    /// Finds the position of the tool named `name`.
    fn find_tool(&self, name: &str) -> (r: Option<usize>)
        ensures
            match r {
                Some(i) => i < self.tools_view().len() && key_index(self.entries(), name@) == i,
                None => !self.contains(name@),
            },
    {
        let ghost es = self.entries();
        let mut i: usize = 0;
        while i < self.tools.len()
            invariant
                i <= self.tools@.len(),
                es == self.entries(),
                forall|j: int| 0 <= j < i ==> es[j].0 != name@,
            decreases self.tools@.len() - i,
        {
            if str_eq(self.tools[i].definition.name.as_str(), name) {
                proof {
                    lemma_key_index_found(es, name@, i as int);
                }
                return Some(i);
            }
            i = i + 1;
        }
        proof {
            lemma_key_index_absent(es, name@);
        }
        None
    }

    /// Finds the position of `category` in the category index.
    fn find_category(&self, category: &str) -> (r: Option<usize>)
        ensures
            match r {
                Some(i) => i < self.categories_view().len() && key_index(
                    self.categories_view(),
                    category@,
                ) == i,
                None => key_index(self.categories_view(), category@) == -1,
            },
    {
        let ghost cs = self.categories_view();
        let mut i: usize = 0;
        while i < self.categories.len()
            invariant
                i <= self.categories@.len(),
                cs == self.categories_view(),
                forall|j: int| 0 <= j < i ==> cs[j].0 != category@,
            decreases self.categories@.len() - i,
        {
            if str_eq(self.categories[i].0.as_str(), category) {
                proof {
                    lemma_key_index_found(cs, category@, i as int);
                }
                return Some(i);
            }
            i = i + 1;
        }
        proof {
            lemma_key_index_absent(cs, category@);
        }
        None
    }

    /// An empty registry.
    pub fn new() -> (r: ToolRegistry<H>)
        ensures
            r.wf(),
            r.tools_view().len() == 0,
            r.categories_view().len() == 0,
    {
        ToolRegistry { tools: Vec::new(), categories: Vec::new() }
    }

    /// Registers `tool` after checking its definition. Fails, leaving the
    /// registry as it was, when the definition is invalid or the name is taken.
    pub fn register(&mut self, tool: SimpleToolImpl<H>) -> (r: Result<(), OrchestraError>)
        requires
            old(self).wf(),
        ensures
            final(self).wf(),
            Self::registered(*old(self), *final(self), tool, r),
    {
        match tool.definition.validate() {
            Ok(()) => {},
            Err(e) => {
                return Err(e);
            },
        }
        match self.find_tool(tool.definition.name.as_str()) {
            Some(_) => {
                let message = String::from_str("Tool with name '").concat(
                    tool.definition.name.as_str(),
                ).concat("' is already registered");
                return Err(OrchestraError::config(message.as_str()));
            },
            None => {},
        }
        let ghost before = self.names();
        self.tools.push(tool);
        proof {
            assert(self.names() =~= before.push(tool.definition.name@));
            assert forall|j: int| 0 <= j < before.len() implies before[j] != tool.definition.name@ by {
                assert(old(self).entries()[j].0 == before[j]);
                if before[j] == tool.definition.name@ {
                    lemma_key_index_le(old(self).entries(), tool.definition.name@, j);
                }
            }
            assert(self.categories_view() =~= old(self).categories_view());
        }
        Ok(())
    }

    /// The outcome of `register(tool)` taking `before` to `after` with result
    /// `r`: it succeeds exactly when the definition is valid and its name is
    /// free, and only then adds the tool.
    pub open spec fn registered(
        before: Self,
        after: Self,
        tool: SimpleToolImpl<H>,
        r: Result<(), OrchestraError>,
    ) -> bool {
        &&& r is Ok <==> tool.definition.spec_problem() is None && !before.contains(
            tool.definition.name@,
        )
        &&& r is Ok ==> after.tools_view() == before.tools_view().push(tool)
        &&& r is Err ==> after.tools_view() == before.tools_view()
        &&& after.categories_view() == before.categories_view()
        &&& r matches Err(e) ==> match tool.definition.spec_problem() {
            Some(m) => e.is_config_with(m),
            None => e.is_config_with(
                "Tool with name '"@ + tool.definition.name@ + "' is already registered"@,
            ),
        }
    }

    /// A copy of the definition of the tool named `name`.
    pub fn get_tool_definition(&self, name: &str) -> (r: Option<ToolDefinition>)
        ensures
            r is Some <==> self.contains(name@),
            r matches Some(d) ==> d.same_as(self.tool_named(name@).definition),
    {
        match self.find_tool(name) {
            Some(i) => Some(self.tools[i].definition.copy()),
            None => None,
        }
    }

    /// The tool named `name`.
    pub fn tool(&self, name: &str) -> (r: Option<&SimpleToolImpl<H>>)
        ensures
            r is Some <==> self.contains(name@),
            r matches Some(t) ==> *t == self.tool_named(name@),
    {
        match self.find_tool(name) {
            Some(i) => Some(&self.tools[i]),
            None => None,
        }
    }

    pub fn has_tool(&self, name: &str) -> (r: bool)
        ensures
            r == self.contains(name@),
    {
        self.find_tool(name).is_some()
    }

    /// The registered names, in registration order.
    pub fn tool_names(&self) -> (r: Vec<String>)
        ensures
            strs_view(r@) == self.names(),
    {
        let mut out: Vec<String> = Vec::new();
        let mut i: usize = 0;
        while i < self.tools.len()
            invariant
                i <= self.tools@.len(),
                out@.len() == i,
                forall|j: int| 0 <= j < i ==> out@[j]@ == self.names()[j],
            decreases self.tools@.len() - i,
        {
            out.push(self.tools[i].definition.name.clone());
            i = i + 1;
        }
        proof {
            assert(strs_view(out@) =~= self.names());
        }
        out
    }

    /// Copies of the registered definitions, in registration order.
    pub fn tool_definitions(&self) -> (r: Vec<ToolDefinition>)
        ensures
            r@.len() == self.tools_view().len(),
            forall|i: int| 0 <= i < r@.len() ==> r@[i].same_as(self.tools_view()[i].definition),
    {
        let mut out: Vec<ToolDefinition> = Vec::new();
        let mut i: usize = 0;
        while i < self.tools.len()
            invariant
                i <= self.tools@.len(),
                out@.len() == i,
                forall|j: int| 0 <= j < i ==> out@[j].same_as(self.tools_view()[j].definition),
            decreases self.tools@.len() - i,
        {
            out.push(self.tools[i].definition.copy());
            i = i + 1;
        }
        out
    }

    pub fn len(&self) -> (r: usize)
        ensures
            r == self.tools_view().len(),
    {
        self.tools.len()
    }

    pub fn is_empty(&self) -> (r: bool)
        ensures
            r == (self.tools_view().len() == 0),
    {
        self.tools.len() == 0
    }

    /// Removes every tool and every category.
    pub fn clear(&mut self)
        ensures
            final(self).wf(),
            final(self).tools_view().len() == 0,
            final(self).categories_view().len() == 0,
    {
        self.tools.clear();
        self.categories.clear();
    }

    /// The member list of one category entry without `name`.
    fn members_without(members: &Vec<String>, name: &str) -> (r: Vec<String>)
        ensures
            strs_view(r@) == without(strs_view(members@), name@),
    {
        let mut kept: Vec<String> = Vec::new();
        let mut m: usize = 0;
        while m < members.len()
            invariant
                m <= members@.len(),
                strs_view(kept@) == without(strs_view(members@).subrange(0, m as int), name@),
            decreases members@.len() - m,
        {
            let ghost before = strs_view(kept@);
            proof {
                assert(strs_view(members@).subrange(0, m + 1).drop_last() =~= strs_view(
                    members@,
                ).subrange(0, m as int));
            }
            if !str_eq(members[m].as_str(), name) {
                kept.push(members[m].clone());
                proof {
                    assert(strs_view(kept@) =~= before.push(members@[m as int]@));
                }
            }
            m = m + 1;
        }
        proof {
            assert(strs_view(members@).subrange(0, members@.len() as int) =~= strs_view(
                members@,
            ));
        }
        kept
    }

    /// Removes the tool named `name` and drops it from every category.
    /// Returns whether a tool was removed.
    pub fn unregister(&mut self, name: &str) -> (r: bool)
        requires
            old(self).wf(),
        ensures
            final(self).wf(),
            r == old(self).contains(name@),
            r ==> final(self).tools_view() == old(self).tools_view().remove(
                key_index(old(self).entries(), name@),
            ),
            !r ==> final(self).tools_view() == old(self).tools_view(),
            !final(self).contains(name@),
            final(self).categories_view().len() == old(self).categories_view().len(),
            forall|i: int|
                0 <= i < final(self).categories_view().len() ==> (#[trigger] final(self).categories_view()[i])
                    == (old(self).categories_view()[i].0, without(old(self).categories_view()[i].1, name@)),
    {
        let found = self.find_tool(name);
        let ghost old_names = self.names();
        let removed = match found {
            Some(i) => {
                self.tools.remove(i);
                proof {
                    assert(self.names() =~= old_names.remove(i as int));
                    lemma_remove_no_duplicates(old_names, i as int);
                    lemma_key_index_found_matches(old(self).entries(), name@);
                    assert forall|j: int| 0 <= j < self.names().len() implies self.names()[j]
                        != name@ by {
                        if j < i {
                            assert(self.names()[j] == old_names[j]);
                        } else {
                            assert(self.names()[j] == old_names[j + 1]);
                        }
                        assert(old_names[i as int] == name@);
                    }
                    assert forall|j: int| 0 <= j < self.entries().len() implies self.entries()[j].0
                        != name@ by {
                        assert(self.entries()[j].0 == self.names()[j]);
                    }
                    lemma_key_index_absent(self.entries(), name@);
                }
                true
            },
            None => false,
        };
        let ghost old_cats = self.categories_view();
        let ghost new_tools = self.tools_view();
        let mut k: usize = 0;
        while k < self.categories.len()
            invariant
                k <= self.categories@.len(),
                self.categories@.len() == old_cats.len(),
                self.tools_view() == new_tools,
                forall|j: int|
                    0 <= j < k ==> (#[trigger] self.categories_view()[j]) == (old_cats[j].0, without(
                        old_cats[j].1,
                        name@,
                    )),
                forall|j: int|
                    k <= j < self.categories@.len() ==> #[trigger] self.categories_view()[j]
                        == old_cats[j],
            decreases self.categories@.len() - k,
        {
            let kept = Self::members_without(&self.categories[k].1, name);
            let key = self.categories[k].0.clone();
            let ghost before = self.categories_view();
            proof {
                assert(before[k as int] == old_cats[k as int]);
            }
            self.categories.set(k, (key, kept));
            proof {
                assert forall|j: int| 0 <= j < self.categories@.len() && j != k implies #[trigger] self.categories_view()[j]
                    == before[j] by {}
                assert(self.categories_view()[k as int] == (old_cats[k as int].0, without(
                    old_cats[k as int].1,
                    name@,
                )));
            }
            k = k + 1;
        }
        proof {
            assert forall|i: int| 0 <= i < self.tools_view().len() implies (
            #[trigger] self.tools_view()[i]).definition.spec_problem() is None by {
                if removed {
                    let x = key_index(old(self).entries(), name@);
                    if i >= x {
                        assert(self.tools_view()[i] == old(self).tools_view()[i + 1]);
                    } else {
                        assert(self.tools_view()[i] == old(self).tools_view()[i]);
                    }
                }
            }
            assert forall|i: int| 0 <= i < self.categories_view().len() implies (
            #[trigger] self.categories_view()[i]).1.no_duplicates() by {
                assert(old_cats[i] == old(self).categories_view()[i]);
                lemma_without_no_duplicates(old_cats[i].1, name@);
            }
        }
        removed
    }

    /// A copy of a list of strings.
    fn copy_strings(v: &Vec<String>) -> (r: Vec<String>)
        ensures
            strs_view(r@) == strs_view(v@),
    {
        let mut out: Vec<String> = Vec::new();
        let mut i: usize = 0;
        while i < v.len()
            invariant
                i <= v@.len(),
                out@.len() == i,
                forall|j: int| 0 <= j < i ==> out@[j]@ == v@[j]@,
            decreases v@.len() - i,
        {
            out.push(v[i].clone());
            i = i + 1;
        }
        proof {
            assert(strs_view(out@) =~= strs_view(v@));
        }
        out
    }

    /// Adds the registered tool `tool_name` to `category`, creating the
    /// category if needed; a tool already in the category is not added twice.
    pub fn add_to_category(&mut self, category: &str, tool_name: &str) -> (r: Result<
        (),
        OrchestraError,
    >)
        requires
            old(self).wf(),
        ensures
            final(self).wf(),
            Self::category_added(*old(self), *final(self), category@, tool_name@, r),
    {
        if !self.has_tool(tool_name) {
            let message = String::from_str("Tool '").concat(tool_name).concat(
                "' not found in registry",
            );
            return Err(OrchestraError::config(message.as_str()));
        }
        let ghost cv = self.categories_view();
        match self.find_category(category) {
            Some(c) => {
                proof {
                    lemma_key_index_found_matches(cv, category@);
                }
                let members = &self.categories[c].1;
                let ghost ms = strs_view(members@);
                let mut present = false;
                let mut m: usize = 0;
                while m < members.len()
                    invariant
                        m <= members@.len(),
                        ms == strs_view(members@),
                        present <==> exists|j: int| 0 <= j < m && ms[j] == tool_name@,
                    decreases members@.len() - m,
                {
                    let same = str_eq(members[m].as_str(), tool_name);
                    proof {
                        assert(ms[m as int] == members@[m as int]@);
                    }
                    if same {
                        present = true;
                    }
                    m = m + 1;
                }
                proof {
                    if present {
                        let j = choose|j: int| 0 <= j < m && ms[j] == tool_name@;
                        assert(ms.contains(tool_name@));
                    } else {
                        assert(!ms.contains(tool_name@));
                    }
                }
                if !present {
                    let mut updated = Self::copy_strings(members);
                    updated.push(tool_name.to_string());
                    let key = self.categories[c].0.clone();
                    self.categories.set(c, (key, updated));
                    proof {
                        assert(strs_view(updated@) =~= ms.push(tool_name@));
                        assert(self.categories_view() =~= cv.update(
                            c as int,
                            (category@, ms.push(tool_name@)),
                        ));
                        let nm = ms.push(tool_name@);
                        assert(cv[c as int].1.no_duplicates());
                        assert forall|a: int, b: int|
                            0 <= a < nm.len() && 0 <= b < nm.len() && a != b implies nm[a]
                            != nm[b] by {
                            if a == ms.len() {
                                assert(ms[b] != tool_name@);
                            } else if b == ms.len() {
                                assert(ms[a] != tool_name@);
                            }
                        }
                    }
                } else {
                    proof {
                        assert(cv.update(c as int, (category@, ms)) =~= cv);
                    }
                }
            },
            None => {
                let mut members: Vec<String> = Vec::new();
                members.push(tool_name.to_string());
                self.categories.push((category.to_string(), members));
                proof {
                    assert(strs_view(members@) =~= seq![tool_name@]);
                    assert(self.categories_view() =~= cv.push((category@, seq![tool_name@])));
                    assert(seq![tool_name@].no_duplicates());
                }
            },
        }
        Ok(())
    }

    /// The outcome of `add_to_category(category, name)` taking `before` to
    /// `after` with result `r`.
    pub open spec fn category_added(
        before: Self,
        after: Self,
        category: Seq<char>,
        name: Seq<char>,
        r: Result<(), OrchestraError>,
    ) -> bool {
        &&& r is Ok <==> before.contains(name)
        &&& after.tools_view() == before.tools_view()
        &&& r is Ok ==> after.categories_view() == set_entry(
            before.categories_view(),
            category,
            add_member(before.members(category), name),
        )
        &&& r matches Err(e) ==> after.categories_view() == before.categories_view()
            && e.is_config_with("Tool '"@ + name + "' not found in registry"@)
    }

    /// The members of `category`, in the order they were added; empty for
    /// an unknown category.
    pub fn tools_in_category(&self, category: &str) -> (r: Vec<String>)
        ensures
            strs_view(r@) == self.members(category@),
    {
        let ghost cv = self.categories_view();
        match self.find_category(category) {
            Some(c) => {
                proof {
                    lemma_key_index_found_matches(cv, category@);
                }
                Self::copy_strings(&self.categories[c].1)
            },
            None => {
                let r: Vec<String> = Vec::new();
                proof {
                    assert(strs_view(r@) =~= Seq::empty());
                }
                r
            },
        }
    }

    /// The category names, in creation order.
    pub fn category_names(&self) -> (r: Vec<String>)
        ensures
            strs_view(r@) == Seq::new(
                self.categories_view().len(),
                |i: int| self.categories_view()[i].0,
            ),
    {
        let mut out: Vec<String> = Vec::new();
        let mut i: usize = 0;
        while i < self.categories.len()
            invariant
                i <= self.categories@.len(),
                out@.len() == i,
                forall|j: int| 0 <= j < i ==> out@[j]@ == self.categories_view()[j].0,
            decreases self.categories@.len() - i,
        {
            out.push(self.categories[i].0.clone());
            i = i + 1;
        }
        proof {
            assert(strs_view(out@) =~= Seq::new(
                self.categories_view().len(),
                |i: int| self.categories_view()[i].0,
            ));
        }
        out
    }

    /// The names among `names` that are registered, order kept.
    pub open spec fn registered_among(self, names: Seq<Seq<char>>) -> Seq<Seq<char>>
        decreases names.len(),
    {
        if names.len() == 0 {
            names
        } else {
            let rest = self.registered_among(names.drop_last());
            if self.contains(names.last()) {
                rest.push(names.last())
            } else {
                rest
            }
        }
    }

    /// Copies of the definitions of the registered members of `category`.
    pub fn category_definitions(&self, category: &str) -> (r: Vec<ToolDefinition>)
        ensures
            r@.len() == self.registered_among(self.members(category@)).len(),
            forall|i: int|
                0 <= i < r@.len() ==> r@[i].same_as(
                    self.tool_named(self.registered_among(self.members(category@))[i]).definition,
                ),
    {
        let names = self.tools_in_category(category);
        let ghost ns = strs_view(names@);
        let mut out: Vec<ToolDefinition> = Vec::new();
        let mut i: usize = 0;
        while i < names.len()
            invariant
                i <= names@.len(),
                ns == strs_view(names@),
                ns == self.members(category@),
                out@.len() == self.registered_among(ns.subrange(0, i as int)).len(),
                forall|j: int|
                    0 <= j < out@.len() ==> out@[j].same_as(
                        self.tool_named(self.registered_among(ns.subrange(0, i as int))[j]).definition,
                    ),
            decreases names@.len() - i,
        {
            proof {
                assert(ns.subrange(0, i + 1).drop_last() =~= ns.subrange(0, i as int));
            }
            match self.get_tool_definition(names[i].as_str()) {
                Some(d) => {
                    out.push(d);
                },
                None => {},
            }
            i = i + 1;
        }
        proof {
            assert(ns.subrange(0, ns.len() as int) =~= ns);
        }
        out
    }

    /// The schema document listing every registered tool as a function, in
    /// registration order, with `tool_choice` set to `auto`.
    pub fn to_json_schema(&self) -> (r: JsonValue)
        ensures
            r@ == self.spec_schema(),
    {
        let mut tools: Vec<JsonValue> = Vec::new();
        let mut i: usize = 0;
        while i < self.tools.len()
            invariant
                i <= self.tools@.len(),
                tools@.len() == i,
                forall|j: int|
                    0 <= j < i ==> tools@[j]@ == tool_schema(self.tools_view()[j].definition),
            decreases self.tools@.len() - i,
        {
            let d = &self.tools[i].definition;
            let mut f = no_entries();
            push_entry(&mut f, "name", JsonValue::string(d.name.as_str()));
            push_entry(&mut f, "description", JsonValue::string(d.description.as_str()));
            push_entry(&mut f, "parameters", d.to_json_schema());
            let mut e = no_entries();
            push_entry(&mut e, "type", JsonValue::string("function"));
            push_entry(&mut e, "function", object_of(f));
            let entry = object_of(e);
            proof {
                assert(entries_view(f@) =~= tool_schema(*d)->Object_0[1].1->Object_0);
                assert(entry@->Object_0 =~= tool_schema(*d)->Object_0);
            }
            tools.push(entry);
            i = i + 1;
        }
        let list = JsonValue::array(tools);
        let mut doc = no_entries();
        push_entry(&mut doc, "tools", list);
        push_entry(&mut doc, "tool_choice", JsonValue::string("auto"));
        let r = object_of(doc);
        proof {
            assert(list@->Array_0 =~= self.spec_schema()->Object_0[0].1->Array_0);
            assert(r@->Object_0 =~= self.spec_schema()->Object_0);
        }
        r
    }

    /// The schema document that `to_json_schema` returns.
    pub open spec fn spec_schema(self) -> JsonView {
        JsonView::Object(
            seq![
                ("tools"@, JsonView::Array(Seq::new(self.tools_view().len(), |i: int| tool_schema(self.tools_view()[i].definition)))),
                ("tool_choice"@, JsonView::Str("auto"@)),
            ],
        )
    }
}

impl<H> Default for ToolRegistry<H> {
    fn default() -> (r: ToolRegistry<H>)
        ensures
            r.wf(),
            r.tools_view().len() == 0,
            r.categories_view().len() == 0,
    {
        ToolRegistry::new()
    }
}

/// The schema entry of one tool: a function with its name, description and
/// parameter schema.
pub open spec fn tool_schema(d: ToolDefinition) -> JsonView {
    JsonView::Object(
        seq![
            ("type"@, JsonView::Str("function"@)),
            ("function"@, JsonView::Object(seq![
                ("name"@, JsonView::Str(d.name@)),
                ("description"@, JsonView::Str(d.description@)),
                ("parameters"@, d.spec_schema()),
            ])),
        ],
    )
}

impl<H: ToolHandler> ToolRegistry<H> {
    /// Runs the tool named `name`; the only path that invokes tool logic.
    pub(crate) fn execute_tool(&self, name: &str, arguments: &JsonValue) -> (r: Result<
        ToolResult,
        OrchestraError,
    >)
        ensures
            !self.contains(name@) ==> (r matches Err(e) && e.is_config_with(
                "Tool '"@ + name@ + "' not found"@,
            )),
            self.contains(name@) ==> self.tool_named(name@).handler.handled(arguments@, r),
    {
        match self.tool(name) {
            Some(t) => t.execute(arguments),
            None => {
                let message = String::from_str("Tool '").concat(name).concat("' not found");
                Err(OrchestraError::config(message.as_str()))
            },
        }
    }
}

/// The first position of a present key holds that key.
proof fn lemma_key_index_found_matches<V>(entries: Seq<(Seq<char>, V)>, key: Seq<char>)
    requires
        key_index(entries, key) >= 0,
    ensures
        key_index(entries, key) < entries.len(),
        entries[key_index(entries, key)].0 == key,
    decreases entries.len(),
{
    if entries.len() > 0 && entries[0].0 != key {
        let t = entries.subrange(1, entries.len() as int);
        lemma_key_index_found_matches(t, key);
    }
}

proof fn lemma_remove_no_duplicates(s: Seq<Seq<char>>, i: int)
    requires
        s.no_duplicates(),
        0 <= i < s.len(),
    ensures
        s.remove(i).no_duplicates(),
{
    let t = s.remove(i);
    assert forall|a: int, b: int| 0 <= a < t.len() && 0 <= b < t.len() && a != b implies t[a]
        != t[b] by {
        let a2 = if a < i {
            a
        } else {
            a + 1
        };
        let b2 = if b < i {
            b
        } else {
            b + 1
        };
        assert(t[a] == s[a2]);
        assert(t[b] == s[b2]);
    }
}

proof fn lemma_without_subset(s: Seq<Seq<char>>, name: Seq<char>, x: Seq<char>)
    requires
        without(s, name).contains(x),
    ensures
        s.contains(x),
        x != name,
    decreases s.len(),
{
    if s.len() > 0 {
        let d = s.drop_last();
        let rest = without(d, name);
        let k = choose|k: int| 0 <= k < without(s, name).len() && without(s, name)[k] == x;
        if s.last() != name && k == rest.len() {
            assert(s[s.len() - 1] == x);
        } else {
            assert(rest[k] == x);
            lemma_without_subset(d, name, x);
            let j = choose|j: int| 0 <= j < d.len() && d[j] == x;
            assert(s[j] == x);
        }
    }
}

proof fn lemma_without_no_duplicates(s: Seq<Seq<char>>, name: Seq<char>)
    requires
        s.no_duplicates(),
    ensures
        without(s, name).no_duplicates(),
    decreases s.len(),
{
    if s.len() > 0 {
        let d = s.drop_last();
        assert(d.no_duplicates());
        lemma_without_no_duplicates(d, name);
        if s.last() != name {
            let rest = without(d, name);
            if rest.contains(s.last()) {
                lemma_without_subset(d, name, s.last());
                let j = choose|j: int| 0 <= j < d.len() && d[j] == s.last();
                assert(s[j] == s[s.len() - 1]);
            }
        }
    }
}

/// A key that occurs at position `j` has a first occurrence.
proof fn lemma_key_index_le<V>(entries: Seq<(Seq<char>, V)>, key: Seq<char>, j: int)
    requires
        0 <= j < entries.len(),
        entries[j].0 == key,
    ensures
        0 <= key_index(entries, key) <= j,
    decreases entries.len(),
{
    if j > 0 && entries[0].0 != key {
        let t = entries.subrange(1, entries.len() as int);
        assert(t[j - 1] == entries[j]);
        lemma_key_index_le(t, key, j - 1);
    }
}

/// Registering two tools under one name, the first with a valid definition,
/// into a registry that lacks the name: the first call succeeds, the second
/// fails, and the registry ends up with exactly one more tool.
pub proof fn lemma_duplicate_registration<H>(
    reg0: ToolRegistry<H>,
    reg1: ToolRegistry<H>,
    reg2: ToolRegistry<H>,
    first: SimpleToolImpl<H>,
    second: SimpleToolImpl<H>,
    r1: Result<(), OrchestraError>,
    r2: Result<(), OrchestraError>,
)
    requires
        !reg0.contains(first.definition.name@),
        first.definition.spec_problem() is None,
        second.definition.name@ == first.definition.name@,
        ToolRegistry::registered(reg0, reg1, first, r1),
        ToolRegistry::registered(reg1, reg2, second, r2),
    ensures
        r1 is Ok,
        r2 is Err,
        reg2.tools_view().len() == reg0.tools_view().len() + 1,
        reg2.contains(first.definition.name@),
{
    let n = first.definition.name@;
    let last = reg0.tools_view().len() as int;
    assert(reg1.entries()[last].0 == n);
    lemma_key_index_le(reg1.entries(), n, last);
}

/// `set_entry` followed by `lookup` of the same key gives the stored value.
pub proof fn lemma_lookup_set_entry<V>(entries: Seq<(Seq<char>, V)>, key: Seq<char>, value: V)
    ensures
        lookup(set_entry(entries, key, value), key) == Some(value),
{
    let i = key_index(entries, key);
    let s = set_entry(entries, key, value);
    if i >= 0 {
        lemma_key_index_found_matches(entries, key);
        assert forall|j: int| 0 <= j < i implies s[j].0 != key by {
            lemma_key_index_first(entries, key, j);
        }
        lemma_key_index_found(s, key, i);
    } else {
        assert forall|j: int| 0 <= j < entries.len() implies s[j].0 != key by {
            if entries[j].0 == key {
                lemma_key_index_le(entries, key, j);
            }
        }
        lemma_key_index_found(s, key, entries.len() as int);
    }
}

/// No entry before the first match has the key.
proof fn lemma_key_index_first<V>(entries: Seq<(Seq<char>, V)>, key: Seq<char>, j: int)
    requires
        0 <= j < key_index(entries, key),
    ensures
        entries[j].0 != key,
    decreases entries.len(),
{
    lemma_key_index_found_matches(entries, key);
    if j > 0 {
        let t = entries.subrange(1, entries.len() as int);
        assert(t[j - 1] == entries[j]);
        lemma_key_index_first(t, key, j - 1);
    }
}

/// After a successful `add_to_category(category, name)`, the category lists
/// the tool exactly once.
pub proof fn lemma_category_round_trip<H>(
    before: ToolRegistry<H>,
    after: ToolRegistry<H>,
    category: Seq<char>,
    name: Seq<char>,
    r: Result<(), OrchestraError>,
)
    requires
        before.wf(),
        after.wf(),
        ToolRegistry::category_added(before, after, category, name, r),
        r is Ok,
    ensures
        exists|i: int|
            0 <= i < after.members(category).len() && after.members(category)[i] == name && (
            forall|j: int|
                0 <= j < after.members(category).len() && after.members(category)[j] == name
                    ==> j == i),
{
    let ms = add_member(before.members(category), name);
    lemma_lookup_set_entry(before.categories_view(), category, ms);
    assert(after.members(category) == ms);
    let cv = after.categories_view();
    let k = key_index(cv, category);
    lemma_key_index_found_matches(cv, category);
    assert(cv[k].1 == ms);
    assert(ms.no_duplicates());
    if !before.members(category).contains(name) {
        assert(ms[ms.len() - 1] == name);
    }
    assert(ms.contains(name));
    let i = choose|i: int| 0 <= i < ms.len() && ms[i] == name;
    assert forall|j: int| 0 <= j < ms.len() && ms[j] == name implies j == i by {}
}

/// `to_json_schema` depends on the registry alone: two documents it returns
/// for one unchanged registry are identical.
pub proof fn lemma_schema_repeatable<H>(reg: ToolRegistry<H>, first: JsonValue, second: JsonValue)
    requires
        first@ == reg.spec_schema(),
        second@ == reg.spec_schema(),
    ensures
        first@ == second@,
{
}

} // verus!
