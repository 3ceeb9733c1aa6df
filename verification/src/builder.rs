//! JSON arrays and objects, written entry by entry.

use vstd::prelude::*;

use crate::json::{array, member, object, quoted, Layout};
#[allow(unused_imports)]
use crate::json::{member_text, number_doc, render, rendered_items, rendered_members, Doc, Members};
use crate::text::decimal;
#[allow(unused_imports)]
use crate::text::texts;

verus! {

/// An object that is being written.
pub(crate) struct ObjectWriter {
    layout: Layout,
    parts: Vec<String>,
    members: Ghost<Members>,
}

impl View for ObjectWriter {
    type V = Members;

    closed spec fn view(&self) -> Members {
        self.members@
    }
}

impl ObjectWriter {
    /// The layout of the object.
    pub(crate) closed spec fn layout(&self) -> Layout {
        self.layout
    }

    /// The parts written so far are the texts of the members so far.
    pub(crate) closed spec fn wf(&self) -> bool {
        texts(self.parts@) == rendered_members(self.layout, self.members@)
    }

    /// An object without members.
    pub(crate) fn new(layout: Layout) -> (res: Self)
        ensures
            res.wf(),
            res.layout() == layout,
            res@ == Members::empty(),
    {
        let res = ObjectWriter { layout, parts: Vec::new(), members: Ghost(Seq::empty()) };
        assert(texts(res.parts@) =~= rendered_members(layout, Seq::empty()));
        res
    }

    /// Appends a member from the text of its value.
    pub(crate) fn put(&mut self, name: &str, value: &str, Ghost(doc): Ghost<Doc>)
        requires
            old(self).wf(),
            value@ == render(doc),
        ensures
            final(self).wf(),
            final(self).layout() == old(self).layout(),
            final(self)@ == old(self)@.push((name@, doc)),
    {
        self.parts.push(member(name, value, self.layout));
        proof {
            let before = self.members@;
            self.members@ = before.push((name@, doc));
            assert(self.members@.drop_last() =~= before);
            assert(texts(self.parts@) =~= texts(old(self).parts@).push(
                member_text(name@, value@, self.layout),
            ));
        }
    }

    /// Appends a member whose value is a string, written as it is.
    pub(crate) fn put_str(&mut self, name: &str, value: &str)
        requires
            old(self).wf(),
        ensures
            final(self).wf(),
            final(self).layout() == old(self).layout(),
            final(self)@ == old(self)@.push((name@, Doc::Str(value@))),
    {
        let text = quoted(value);
        self.put(name, text.as_str(), Ghost(Doc::Str(value@)));
    }

    /// Appends a member whose value is a number.
    pub(crate) fn put_number(&mut self, name: &str, value: u64)
        requires
            old(self).wf(),
        ensures
            final(self).wf(),
            final(self).layout() == old(self).layout(),
            final(self)@ == old(self)@.push((name@, number_doc(value as int))),
    {
        let text = decimal(value);
        self.put(name, text.as_str(), Ghost(number_doc(value as int)));
    }

    /// Appends a member whose value is true or false.
    pub(crate) fn put_bool(&mut self, name: &str, value: bool)
        requires
            old(self).wf(),
        ensures
            final(self).wf(),
            final(self).layout() == old(self).layout(),
            final(self)@ == old(self)@.push((name@, Doc::Bool(value))),
    {
        self.put(
            name,
            if value {
                "true"
            } else {
                "false"
            },
            Ghost(Doc::Bool(value)),
        );
    }

    /// Appends a member whose value is null.
    pub(crate) fn put_null(&mut self, name: &str)
        requires
            old(self).wf(),
        ensures
            final(self).wf(),
            final(self).layout() == old(self).layout(),
            final(self)@ == old(self)@.push((name@, Doc::Null)),
    {
        self.put(name, "null", Ghost(Doc::Null));
    }

    /// Returns the texts of the members, which are `members`.
    pub(crate) fn into_parts(self, Ghost(members): Ghost<Members>) -> (res: Vec<String>)
        requires
            self.wf(),
            members =~= self@,
        ensures
            texts(res@) == rendered_members(self.layout(), members),
    {
        self.parts
    }

    /// Returns the text of the object, which is `doc`.
    pub(crate) fn finish(&self, Ghost(doc): Ghost<Doc>) -> (res: String)
        requires
            self.wf(),
            doc matches Doc::Obj(layout, members) && layout == self.layout() && members =~= self@,
        ensures
            res@ == render(doc),
    {
        object(self.layout, &self.parts)
    }
}

/// An array that is being written.
pub(crate) struct ArrayWriter {
    layout: Layout,
    parts: Vec<String>,
    items: Ghost<Seq<Doc>>,
}

impl View for ArrayWriter {
    type V = Seq<Doc>;

    closed spec fn view(&self) -> Seq<Doc> {
        self.items@
    }
}

impl ArrayWriter {
    /// The layout of the array.
    pub(crate) closed spec fn layout(&self) -> Layout {
        self.layout
    }

    /// The parts written so far are the texts of the items so far.
    pub(crate) closed spec fn wf(&self) -> bool {
        texts(self.parts@) == rendered_items(self.items@)
    }

    /// An array without items.
    pub(crate) fn new(layout: Layout) -> (res: Self)
        ensures
            res.wf(),
            res.layout() == layout,
            res@ == Seq::<Doc>::empty(),
    {
        let res = ArrayWriter { layout, parts: Vec::new(), items: Ghost(Seq::empty()) };
        assert(texts(res.parts@) =~= rendered_items(Seq::empty()));
        res
    }

    /// Appends an item by its text.
    pub(crate) fn put(&mut self, item: String, Ghost(doc): Ghost<Doc>)
        requires
            old(self).wf(),
            item@ == render(doc),
        ensures
            final(self).wf(),
            final(self).layout() == old(self).layout(),
            final(self)@ == old(self)@.push(doc),
    {
        self.parts.push(item);
        proof {
            let before = self.items@;
            self.items@ = before.push(doc);
            assert(self.items@.drop_last() =~= before);
            assert(texts(self.parts@) =~= texts(old(self).parts@).push(item@));
        }
    }

    /// Appends a string, written as it is.
    pub(crate) fn put_str(&mut self, item: &str)
        requires
            old(self).wf(),
        ensures
            final(self).wf(),
            final(self).layout() == old(self).layout(),
            final(self)@ == old(self)@.push(Doc::Str(item@)),
    {
        let text = quoted(item);
        self.put(text, Ghost(Doc::Str(item@)));
    }

    /// Returns the text of the array, which is `doc`.
    pub(crate) fn finish(&self, Ghost(doc): Ghost<Doc>) -> (res: String)
        requires
            self.wf(),
            doc matches Doc::Arr(layout, items) && layout == self.layout() && items =~= self@,
        ensures
            res@ == render(doc),
    {
        array(self.layout, &self.parts)
    }
}

} // verus!
