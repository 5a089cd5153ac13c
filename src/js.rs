//! The state that binding generation accumulates over the records of one
//! run: runtime helpers, the module's internal exports that the glue calls,
//! and the text of the script and its declarations.
use vstd::prelude::*;

use crate::text::push_str_chars;

verus! {

/// The first line of every declaration file.
pub const TYPESCRIPT_HEADER: &'static str = "/* tslint:disable */\n";

pub struct Context {
    /// Runtime helpers as (name, definition), each name once, in the order
    /// they were first needed.
    helpers: Vec<(String, String)>,
    /// Internal exports of the module that the glue calls, each once.
    required_internal_exports: Vec<String>,
    imports: String,
    footer: String,
    typescript: String,
}

pub open spec fn helper_views(h: Seq<(String, String)>) -> Seq<(Seq<char>, Seq<char>)> {
    h.map_values(|p: (String, String)| (p.0@, p.1@))
}

pub open spec fn names_of(h: Seq<(Seq<char>, Seq<char>)>) -> Seq<Seq<char>> {
    h.map_values(|p: (Seq<char>, Seq<char>)| p.0)
}

/// The helpers after `name` with `definition` is asked for: a name already
/// there keeps its first definition.
pub open spec fn with_helper(
    h: Seq<(Seq<char>, Seq<char>)>,
    name: Seq<char>,
    definition: Seq<char>,
) -> Seq<(Seq<char>, Seq<char>)> {
    if names_of(h).contains(name) {
        h
    } else {
        h.push((name, definition))
    }
}

/// The definitions of the helpers `h`, one after the other.
pub open spec fn definitions(h: Seq<(Seq<char>, Seq<char>)>) -> Seq<char>
    decreases h.len(),
{
    if h.len() == 0 {
        seq![]
    } else {
        definitions(h.drop_last()) + h.last().1
    }
}

pub open spec fn no_duplicates(s: Seq<Seq<char>>) -> bool {
    forall|i: int, j: int| 0 <= i < j < s.len() ==> s[i] != s[j]
}

pub open spec fn with_name(s: Seq<Seq<char>>, name: Seq<char>) -> Seq<Seq<char>> {
    if s.contains(name) {
        s
    } else {
        s.push(name)
    }
}

impl Context {
    pub closed spec fn helpers(&self) -> Seq<(Seq<char>, Seq<char>)> {
        helper_views(self.helpers@)
    }

    pub closed spec fn internal_exports(&self) -> Seq<Seq<char>> {
        self.required_internal_exports@.map_values(|s: String| s@)
    }

    pub closed spec fn imports_text(&self) -> Seq<char> {
        self.imports@
    }

    pub closed spec fn footer_text(&self) -> Seq<char> {
        self.footer@
    }

    pub closed spec fn typescript_text(&self) -> Seq<char> {
        self.typescript@
    }

    /// Each helper and each internal export is recorded once.
    pub open spec fn wf(&self) -> bool {
        no_duplicates(names_of(self.helpers())) && no_duplicates(self.internal_exports())
    }

    pub fn new() -> (r: Context)
        ensures
            r.wf(),
            r.helpers().len() == 0,
            r.internal_exports().len() == 0,
            r.imports_text().len() == 0,
            r.footer_text().len() == 0,
            r.typescript_text() == TYPESCRIPT_HEADER@,
    {
        let r = Context {
            helpers: Vec::new(),
            required_internal_exports: Vec::new(),
            imports: String::new(),
            footer: String::new(),
            typescript: String::from_str(TYPESCRIPT_HEADER),
        };
        assert(r.helpers() =~= seq![]);
        assert(r.internal_exports() =~= seq![]);
        r
    }

    fn find_helper(&self, name: &str) -> (r: bool)
        ensures
            r == names_of(self.helpers()).contains(name@),
    {
        let target = String::from_str(name);
        let mut i: usize = 0;
        while i < self.helpers.len()
            invariant
                i <= self.helpers@.len(),
                target@ == name@,
                forall|k: int| 0 <= k < i ==> self.helpers@[k].0@ != name@,
            decreases self.helpers@.len() - i,
        {
            if self.helpers[i].0 == target {
                assert(names_of(self.helpers())[i as int] == name@);
                return true;
            }
            i = i + 1;
        }
        assert forall|k: int| 0 <= k < names_of(self.helpers()).len() implies names_of(
            self.helpers(),
        )[k] != name@ by {
            assert(names_of(self.helpers())[k] == self.helpers@[k].0@);
        }
        false
    }

    /// Makes the runtime helper `name` available to the generated script,
    /// with `definition` as its text; a helper already available is left as
    /// it is, so its definition appears once however often it is needed.
    pub fn expose_global(&mut self, name: &str, definition: &str)
        requires
            old(self).wf(),
        ensures
            final(self).wf(),
            final(self).helpers() == with_helper(old(self).helpers(), name@, definition@),
            final(self).internal_exports() == old(self).internal_exports(),
            final(self).imports_text() == old(self).imports_text(),
            final(self).footer_text() == old(self).footer_text(),
            final(self).typescript_text() == old(self).typescript_text(),
    {
        if self.find_helper(name) {
            return;
        }
        let ghost before = self.helpers();
        self.helpers.push((String::from_str(name), String::from_str(definition)));
        assert(self.helpers() =~= before.push((name@, definition@)));
        assert(names_of(self.helpers()) =~= names_of(before).push(name@));
    }

    /// Records that the glue calls the module's internal export `name`, so
    /// that it must be kept.
    pub fn require_internal_export(&mut self, name: &str)
        requires
            old(self).wf(),
        ensures
            final(self).wf(),
            final(self).internal_exports() == with_name(old(self).internal_exports(), name@),
            final(self).helpers() == old(self).helpers(),
            final(self).imports_text() == old(self).imports_text(),
            final(self).footer_text() == old(self).footer_text(),
            final(self).typescript_text() == old(self).typescript_text(),
    {
        let target = String::from_str(name);
        let mut i: usize = 0;
        while i < self.required_internal_exports.len()
            invariant
                i <= self.required_internal_exports@.len(),
                target@ == name@,
                forall|k: int| 0 <= k < i ==> self.required_internal_exports@[k]@ != name@,
                *self == *old(self),
                self.wf(),
            decreases self.required_internal_exports@.len() - i,
        {
            if self.required_internal_exports[i] == target {
                assert(self.internal_exports()[i as int] == name@);
                return;
            }
            i = i + 1;
        }
        let ghost before = self.internal_exports();
        assert forall|k: int| 0 <= k < before.len() implies before[k] != name@ by {
            assert(before[k] == self.required_internal_exports@[k]@);
        }
        self.required_internal_exports.push(target);
        assert(self.internal_exports() =~= before.push(name@));
    }

    /// Appends `text` to the script's imports.
    pub fn add_import(&mut self, text: &str)
        ensures
            final(self).imports_text() == old(self).imports_text() + text@,
            final(self).helpers() == old(self).helpers(),
            final(self).internal_exports() == old(self).internal_exports(),
            final(self).footer_text() == old(self).footer_text(),
            final(self).typescript_text() == old(self).typescript_text(),
    {
        self.imports.append(text);
    }

    /// Appends `text` to the end of the script.
    pub fn add_footer(&mut self, text: &str)
        ensures
            final(self).footer_text() == old(self).footer_text() + text@,
            final(self).helpers() == old(self).helpers(),
            final(self).internal_exports() == old(self).internal_exports(),
            final(self).imports_text() == old(self).imports_text(),
            final(self).typescript_text() == old(self).typescript_text(),
    {
        self.footer.append(text);
    }

    /// Appends `text` to the declarations.
    pub fn add_typescript(&mut self, text: &str)
        ensures
            final(self).typescript_text() == old(self).typescript_text() + text@,
            final(self).helpers() == old(self).helpers(),
            final(self).internal_exports() == old(self).internal_exports(),
            final(self).imports_text() == old(self).imports_text(),
            final(self).footer_text() == old(self).footer_text(),
    {
        self.typescript.append(text);
    }

    /// The internal exports that must survive later dead-code removal.
    pub fn internal_exports_needed(&self) -> (r: Vec<String>)
        ensures
            r@.map_values(|s: String| s@) == self.internal_exports(),
    {
        self.required_internal_exports.clone()
    }

    /// Ends the run: the script is the imports, then the definition of every
    /// helper, then the footer; the declarations are returned as gathered.
    /// The context is consumed, so it is finalized once.
    pub fn finalize(self) -> (r: (String, String))
        ensures
            r.0@ == self.imports_text() + definitions(self.helpers()) + self.footer_text(),
            r.1@ == self.typescript_text(),
    {
        let Context { helpers, required_internal_exports: _, imports, footer, typescript } = self;
        let mut js: Vec<char> = Vec::new();
        push_str_chars(&mut js, imports.as_str());
        let ghost hv = helper_views(helpers@);
        let mut i: usize = 0;
        assert(hv.subrange(0, 0) =~= seq![]);
        while i < helpers.len()
            invariant
                i <= helpers@.len(),
                hv == helper_views(helpers@),
                js@ == imports@ + definitions(hv.subrange(0, i as int)),
            decreases helpers@.len() - i,
        {
            push_str_chars(&mut js, helpers[i].1.as_str());
            assert(hv.subrange(0, i + 1).drop_last() =~= hv.subrange(0, i as int));
            i = i + 1;
        }
        assert(hv.subrange(0, i as int) =~= hv);
        push_str_chars(&mut js, footer.as_str());
        (crate::text::string_of_chars(&js), typescript)
    }
}

/// Asking for a helper that is already available changes nothing: when two
/// exports need the same helper, its definition enters the script once.
pub proof fn lemma_helper_defined_once(
    h: Seq<(Seq<char>, Seq<char>)>,
    name: Seq<char>,
    first: Seq<char>,
    second: Seq<char>,
)
    requires
        no_duplicates(names_of(h)),
    ensures
        with_helper(with_helper(h, name, first), name, second) == with_helper(h, name, first),
        no_duplicates(names_of(with_helper(h, name, first))),
        names_of(with_helper(h, name, first)).contains(name),
        definitions(with_helper(with_helper(h, name, first), name, second)) == definitions(h) + (
        if names_of(h).contains(name) {
            seq![]
        } else {
            first
        }),
{
    let h1 = with_helper(h, name, first);
    if !names_of(h).contains(name) {
        assert(names_of(h1) =~= names_of(h).push(name));
        assert(names_of(h1)[h.len() as int] == name);
        assert(h1.drop_last() =~= h);
    } else {
        assert(definitions(h) + seq![] =~= definitions(h));
    }
}

} // verus!
