//! A singly linked list built from owned boxes, grown at the front.

use vstd::prelude::*;

verus! {

/// One list node: a value and the rest of the list.
pub struct Node {
    pub value: i32,
    pub next: Option<Box<Node>>,
}

/// The values hanging off a link, front to back.
pub open spec fn link_seq(link: Option<Box<Node>>) -> Seq<i32>
    decreases link,
{
    match link {
        Option::None => Seq::empty(),
        Option::Some(node) => seq![node.value] + link_seq(node.next),
    }
}

/// The list: just its head link.
pub struct LinkedList {
    head: Option<Box<Node>>,
}

impl View for LinkedList {
    type V = Seq<i32>;

    closed spec fn view(&self) -> Seq<i32> {
        link_seq(self.head)
    }
}

impl LinkedList {
    /// An empty list.
    pub fn new() -> (l: LinkedList)
        ensures
            l@ == Seq::<i32>::empty(),
    {
        LinkedList { head: None }
    }

    /// Pushes a value at the front.
    pub fn push(&mut self, value: i32)
        ensures
            final(self)@ == seq![value] + old(self)@,
    {
        let old_head = self.head.take();
        let new_node = Box::new(Node { value, next: old_head });
        self.head = Some(new_node);
    }

    /// The values in list order, front to back.
    pub fn to_vec(&self) -> (values: Vec<i32>)
        ensures
            values@ == self@,
    {
        let mut values: Vec<i32> = Vec::new();
        collect_values(&self.head, &mut values);
        proof {
            assert(values@ =~= self@);
        }
        values
    }
}

fn collect_values(link: &Option<Box<Node>>, out: &mut Vec<i32>)
    ensures
        final(out)@ == old(out)@ + link_seq(*link),
    decreases *link,
{
    match link {
        None => {
            proof {
                assert(out@ =~= old(out)@ + link_seq(*link));
            }
        },
        Some(node) => {
            out.push(node.value);
            collect_values(&node.next, out);
            proof {
                assert(out@ =~= old(out)@ + link_seq(*link));
            }
        },
    }
}

} // verus!
