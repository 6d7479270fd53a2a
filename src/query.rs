//! The query handed to the localizer: a message id, the arguments of the
//! message, and the arguments of each attribute, grouped by attribute.
use vstd::prelude::*;

use crate::message::args_view;
use crate::text::same_text;

verus! {

pub type ArgView = (Seq<char>, Seq<char>);

pub open spec fn has_group(g: Seq<(Seq<char>, Seq<ArgView>)>, attr: Seq<char>) -> bool {
    exists|i: int| 0 <= i < g.len() && #[trigger] g[i].0 == attr
}

pub open spec fn group_pos(g: Seq<(Seq<char>, Seq<ArgView>)>, attr: Seq<char>) -> int {
    choose|i: int| 0 <= i < g.len() && #[trigger] g[i].0 == attr
}

/// The groups after `arg` was added for `attr`: appended to the attribute's
/// group, or as a new group at the end where the attribute has none yet.
pub open spec fn grouped(g: Seq<(Seq<char>, Seq<ArgView>)>, attr: Seq<char>, arg: ArgView) -> Seq<
    (Seq<char>, Seq<ArgView>),
> {
    if has_group(g, attr) {
        let i = group_pos(g, attr);
        g.update(i, (attr, g[i].1.push(arg)))
    } else {
        g.push((attr, seq![arg]))
    }
}

pub open spec fn groups_unique(g: Seq<(Seq<char>, Seq<ArgView>)>) -> bool {
    forall|i: int, j: int| 0 <= i < j < g.len() ==> g[i].0 != g[j].0
}

pub open spec fn groups_view(g: Seq<(String, Vec<(String, String)>)>) -> Seq<(Seq<char>, Seq<ArgView>)> {
    Seq::new(g.len(), |i: int| (g[i].0@, args_view(g[i].1@)))
}

/// A query for one message.
pub struct Query {
    id: String,
    args: Vec<(String, String)>,
    attr_args: Vec<(String, Vec<(String, String)>)>,
}

impl Query {
    pub closed spec fn id_view(&self) -> Seq<char> {
        self.id@
    }

    pub closed spec fn args_view(&self) -> Seq<ArgView> {
        args_view(self.args@)
    }

    /// The attribute arguments: one group per attribute, in order of first
    /// mention.
    pub closed spec fn attr_args_view(&self) -> Seq<(Seq<char>, Seq<ArgView>)> {
        groups_view(self.attr_args@)
    }

    #[verifier::type_invariant]
    closed spec fn inv(&self) -> bool {
        groups_unique(self.attr_args_view())
    }

    /// A query for `message_id`, with no arguments.
    pub fn new(message_id: &str) -> (r: Query)
        ensures
            r.id_view() == message_id@,
            r.args_view().len() == 0,
            r.attr_args_view().len() == 0,
    {
        let r = Query { id: message_id.to_owned(), args: Vec::new(), attr_args: Vec::new() };
        assert(r.attr_args_view().len() == 0);
        r
    }

    /// Adds an argument of the message.
    pub fn with_arg(self, name: &str, value: String) -> (r: Query)
        ensures
            r.id_view() == self.id_view(),
            r.args_view() == self.args_view().push((name@, value@)),
            r.attr_args_view() == self.attr_args_view(),
    {
        proof {
            use_type_invariant(&self);
        }
        let Query { id, mut args, attr_args } = self;
        let ghost before = args@;
        args.push((name.to_owned(), value));
        assert(args_view(args@) =~= args_view(before).push((name@, value@)));
        Query { id, args, attr_args }
    }

    /// Adds an argument of attribute `attr`.
    pub fn with_attr_arg(self, attr: &str, name: &str, value: String) -> (r: Query)
        ensures
            r.id_view() == self.id_view(),
            r.args_view() == self.args_view(),
            r.attr_args_view() == grouped(self.attr_args_view(), attr@, (name@, value@)),
    {
        proof {
            use_type_invariant(&self);
        }
        let Query { id, args, mut attr_args } = self;
        let ghost g = groups_view(attr_args@);
        let ghost arg = (name@, value@);
        let mut i: usize = 0;
        while i < attr_args.len() && !same_text(attr_args[i].0.as_str(), attr)
            invariant
                i <= attr_args@.len(),
                g == groups_view(attr_args@),
                forall|k: int| 0 <= k < i ==> (#[trigger] g[k]).0 != attr@,
            decreases attr_args@.len() - i,
        {
            i = i + 1;
        }
        let ghost before = attr_args@;
        if i < attr_args.len() {
            assert(g[i as int].0 == attr@);
            assert(group_pos(g, attr@) == i);
            let (key, mut group) = attr_args.remove(i);
            let ghost old_group = group@;
            group.push((name.to_owned(), value));
            assert(args_view(group@) =~= args_view(old_group).push(arg));
            attr_args.insert(i, (key, group));
            assert(groups_view(attr_args@) =~= grouped(g, attr@, arg));
        } else {
            let mut group: Vec<(String, String)> = Vec::new();
            group.push((name.to_owned(), value));
            assert(args_view(group@) =~= seq![arg]);
            attr_args.push((attr.to_owned(), group));
            assert(groups_view(attr_args@) =~= grouped(g, attr@, arg));
        }
        Query { id, args, attr_args }
    }

    pub fn id(&self) -> (r: &str)
        ensures
            r@ == self.id_view(),
    {
        self.id.as_str()
    }

    pub fn args(&self) -> (r: &Vec<(String, String)>)
        ensures
            args_view(r@) == self.args_view(),
    {
        &self.args
    }

    pub fn attr_args(&self) -> (r: &Vec<(String, Vec<(String, String)>)>)
        ensures
            groups_view(r@) == self.attr_args_view(),
    {
        &self.attr_args
    }
}

} // verus!
