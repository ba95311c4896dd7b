//! A singly linked list of 32-bit values with a tracked size, supporting
//! front insertion and removal and read-only iteration.

use vstd::prelude::*;
use vstd::string::StringExecFns;

verus! {

/// The character for a single decimal digit.
pub open spec fn digit_char(d: nat) -> char {
    if d == 0 {
        '0'
    } else if d == 1 {
        '1'
    } else if d == 2 {
        '2'
    } else if d == 3 {
        '3'
    } else if d == 4 {
        '4'
    } else if d == 5 {
        '5'
    } else if d == 6 {
        '6'
    } else if d == 7 {
        '7'
    } else if d == 8 {
        '8'
    } else {
        '9'
    }
}

/// The decimal digits of `n`, most significant first.
pub open spec fn dec_digits(n: nat) -> Seq<char>
    decreases n,
{
    if n < 10 {
        seq![digit_char(n)]
    } else {
        dec_digits(n / 10) + seq![digit_char(n % 10)]
    }
}

/// The rendering of a list's values: each one preceded by a single space,
/// front first.
pub open spec fn display_seq(vals: Seq<u32>) -> Seq<char>
    decreases vals.len(),
{
    if vals.len() == 0 {
        Seq::empty()
    } else {
        display_seq(vals.drop_last()) + seq![' '] + dec_digits(vals.last() as nat)
    }
}

/// The digits of `s` read back to front.
spec fn rev_chars(s: Seq<u32>) -> Seq<char>
    decreases s.len(),
{
    if s.len() == 0 {
        Seq::empty()
    } else {
        seq![digit_char((s.last() % 10) as nat)] + rev_chars(s.drop_last())
    }
}

proof fn lemma_rev_chars_index(s: Seq<u32>, i: int)
    requires
        0 <= i < s.len(),
    ensures
        rev_chars(s).len() == s.len(),
        rev_chars(s)[i] == digit_char((s[s.len() - 1 - i] % 10) as nat),
    decreases s.len(),
{
    lemma_rev_chars_len(s);
    if i > 0 {
        lemma_rev_chars_index(s.drop_last(), i - 1);
    } else if s.len() > 1 {
        lemma_rev_chars_index(s.drop_last(), 0);
    }
}

proof fn lemma_rev_chars_len(s: Seq<u32>)
    ensures
        rev_chars(s).len() == s.len(),
    decreases s.len(),
{
    if s.len() > 0 {
        lemma_rev_chars_len(s.drop_last());
    }
}

/// One decimal digit as text.
fn digit_str(d: u32) -> (s: &'static str)
    requires
        d < 10,
    ensures
        s@ =~= seq![digit_char(d as nat)],
{
    if d == 0 {
        proof {
            reveal_strlit("0");
        }
        "0"
    } else if d == 1 {
        proof {
            reveal_strlit("1");
        }
        "1"
    } else if d == 2 {
        proof {
            reveal_strlit("2");
        }
        "2"
    } else if d == 3 {
        proof {
            reveal_strlit("3");
        }
        "3"
    } else if d == 4 {
        proof {
            reveal_strlit("4");
        }
        "4"
    } else if d == 5 {
        proof {
            reveal_strlit("5");
        }
        "5"
    } else if d == 6 {
        proof {
            reveal_strlit("6");
        }
        "6"
    } else if d == 7 {
        proof {
            reveal_strlit("7");
        }
        "7"
    } else if d == 8 {
        proof {
            reveal_strlit("8");
        }
        "8"
    } else {
        proof {
            reveal_strlit("9");
        }
        "9"
    }
}

/// Appends the decimal rendering of `x` to `out`.
fn push_decimal(out: &mut String, x: u32)
    ensures
        final(out)@ =~= old(out)@ + dec_digits(x as nat),
{
    // Collect the digits, least significant first.
    let mut digits: Vec<u32> = Vec::new();
    digits.push(x % 10);
    let mut n: u32 = x / 10;
    proof {
        assert(digits@.len() == 1);
        assert(digits@.last() == x % 10);
        assert(digits@.drop_last() =~= Seq::<u32>::empty());
        assert(rev_chars(digits@.drop_last()) =~= Seq::<char>::empty());
        assert(rev_chars(digits@) =~= seq![digit_char(((x % 10) % 10) as nat)]);
        assert(x % 10 < 10);
        assert((x % 10) % 10 == x % 10);
        if x < 10 {
            assert(x % 10 == x);
            assert(dec_digits(x as nat) =~= seq![digit_char(x as nat)]);
            assert(dec_digits(x as nat) =~= rev_chars(digits@));
        } else {
            assert(dec_digits(x as nat) =~= dec_digits((x as nat) / 10) + seq![
                digit_char(((x as nat) % 10) as nat),
            ]);
            assert(n as nat == (x as nat) / 10);
            assert(dec_digits(x as nat) =~= dec_digits(n as nat) + rev_chars(digits@));
        }
    }
    while n > 0
        invariant
            digits@.len() >= 1,
            forall|k: int| 0 <= k < digits@.len() ==> #[trigger] digits@[k] < 10,
            dec_digits(x as nat) =~= if n > 0 {
                dec_digits(n as nat) + rev_chars(digits@)
            } else {
                rev_chars(digits@)
            },
        decreases n,
    {
        let d = n % 10;
        proof {
            assert(digits@.push(d).drop_last() =~= digits@);
            if n < 10 {
                assert(dec_digits(x as nat) =~= rev_chars(digits@.push(d)));
            } else {
                assert(dec_digits(n as nat) =~= dec_digits((n / 10) as nat) + seq![
                    digit_char((n % 10) as nat),
                ]);
                assert(dec_digits(x as nat) =~= dec_digits((n / 10) as nat) + rev_chars(
                    digits@.push(d),
                ));
            }
        }
        digits.push(d);
        n = n / 10;
    }
    // Emit them back to front.
    let mut j: usize = 0;
    let len = digits.len();
    proof {
        lemma_rev_chars_len(digits@);
        assert(rev_chars(digits@).take(0) =~= Seq::<char>::empty());
    }
    while j < len
        invariant
            j <= len,
            len == digits@.len(),
            forall|k: int| 0 <= k < len ==> #[trigger] digits@[k] < 10,
            dec_digits(x as nat) =~= rev_chars(digits@),
            rev_chars(digits@).len() == len,
            out@ =~= old(out)@ + rev_chars(digits@).take(j as int),
        decreases len - j,
    {
        let d = digits[len - 1 - j];
        proof {
            lemma_rev_chars_index(digits@, j as int);
            assert(rev_chars(digits@).take(j + 1) =~= rev_chars(digits@).take(j as int).push(
                rev_chars(digits@)[j as int],
            ));
            assert(d % 10 == d);
        }
        out.append(digit_str(d));
        j += 1;
    }
    proof {
        assert(rev_chars(digits@).take(len as int) =~= rev_chars(digits@));
    }
}

/// One list node: a value and the rest of the chain.
pub struct Node {
    pub value: u32,
    pub next: Option<Box<Node>>,
}

/// The values stored in the chain starting at `n`, front first.
pub open spec fn chain_seq(n: Option<Box<Node>>) -> Seq<u32>
    decreases n,
{
    match n {
        None => Seq::empty(),
        Some(b) => seq![b.value] + chain_seq(b.next),
    }
}

impl Node {
    pub fn new(value: u32, next: Option<Box<Node>>) -> (n: Node)
        ensures
            n.value == value,
            n.next == next,
    {
        Node { value, next }
    }
}

/// A singly linked list with its length cached.
pub struct LinkedList {
    head: Option<Box<Node>>,
    size: usize,
}

impl View for LinkedList {
    type V = Seq<u32>;

    closed spec fn view(&self) -> Seq<u32> {
        chain_seq(self.head)
    }
}

impl LinkedList {
    /// The cached size agrees with the chain.
    pub closed spec fn wf(self) -> bool {
        self.size == chain_seq(self.head).len()
    }

    pub fn new() -> (l: LinkedList)
        ensures
            l@ =~= Seq::<u32>::empty(),
            l.wf(),
    {
        LinkedList { head: None, size: 0 }
    }

    pub fn get_size(&self) -> (n: usize)
        requires
            self.wf(),
        ensures
            n == self@.len(),
    {
        self.size
    }

    pub fn is_empty(&self) -> (b: bool)
        requires
            self.wf(),
        ensures
            b == (self@.len() == 0),
    {
        self.get_size() == 0
    }

    /// Prepends `value` to the list.
    pub fn push_front(&mut self, value: u32)
        requires
            old(self).wf(),
            old(self)@.len() < usize::MAX,
        ensures
            final(self).wf(),
            final(self)@ =~= seq![value] + old(self)@,
    {
        let new_node: Box<Node> = Box::new(Node::new(value, self.head.take()));
        self.head = Some(new_node);
        self.size += 1;
    }

    /// Removes and returns the front value, or `None` if the list is empty.
    pub fn pop_front(&mut self) -> (r: Option<u32>)
        requires
            old(self).wf(),
        ensures
            final(self).wf(),
            match r {
                None => old(self)@.len() == 0 && final(self)@ == old(self)@,
                Some(v) => old(self)@.len() > 0 && v == old(self)@[0] && final(self)@ =~= old(
                    self,
                )@.skip(1),
            },
    {
        let node: Box<Node> = match self.head.take() {
            None => {
                return None;
            },
            Some(n) => n,
        };
        self.head = node.next;
        self.size -= 1;
        Some(node.value)
    }

    /// The stored values, front first.
    pub fn to_vec(&self) -> (v: Vec<u32>)
        requires
            self.wf(),
        ensures
            v@ =~= self@,
    {
        let mut v: Vec<u32> = Vec::new();
        let mut cur: &Option<Box<Node>> = &self.head;
        proof {
            assert(self@.take(0) =~= Seq::<u32>::empty());
        }
        loop
            invariant
                v@.len() <= self@.len(),
                v@ =~= self@.take(v@.len() as int),
                chain_seq(*cur) =~= self@.skip(v@.len() as int),
            decreases self@.len() - v@.len(),
        {
            match cur {
                None => {
                    return v;
                },
                Some(node) => {
                    assert(chain_seq(*cur)[0] == node.value);
                    v.push(node.value);
                    proof {
                        assert(self@.skip(v@.len() - 1).skip(1) =~= self@.skip(v@.len() as int));
                        assert(self@.take(v@.len() as int) =~= self@.take(v@.len() - 1).push(
                            node.value,
                        ));
                    }
                    cur = &node.next;
                },
            }
        }
    }
}

/// A read-only cursor over a linked list's values.
pub struct LinkedListIter<'a> {
    current: &'a Option<Box<Node>>,
}

impl<'a> LinkedListIter<'a> {
    /// The values not yet yielded.
    pub closed spec fn remaining(self) -> Seq<u32> {
        chain_seq(*self.current)
    }

    /// Yields the next value, front first, or `None` at the end.
    pub fn next(&mut self) -> (r: Option<u32>)
        ensures
            match r {
                None => old(self).remaining().len() == 0 && final(self).remaining() == old(
                    self,
                ).remaining(),
                Some(v) => old(self).remaining().len() > 0 && v == old(self).remaining()[0]
                    && final(self).remaining() =~= old(self).remaining().skip(1),
            },
    {
        match self.current {
            None => None,
            Some(node) => {
                self.current = &node.next;
                assert(old(self).remaining() =~= seq![node.value] + final(self).remaining());
                Some(node.value)
            },
        }
    }
}

impl LinkedList {
    /// The list's text form: each value preceded by one space, front first.
    pub fn to_string(&self) -> (s: String)
        requires
            self.wf(),
        ensures
            s@ =~= display_seq(self@),
    {
        let vals = self.to_vec();
        let mut out = String::new();
        let mut j: usize = 0;
        proof {
            assert(display_seq(vals@.take(0)) =~= Seq::<char>::empty());
        }
        while j < vals.len()
            invariant
                j <= vals@.len(),
                vals@ =~= self@,
                out@ =~= display_seq(vals@.take(j as int)),
            decreases vals@.len() - j,
        {
            proof {
                assert(vals@.take(j + 1).drop_last() =~= vals@.take(j as int));
                assert(vals@.take(j + 1).last() == vals@[j as int]);
                reveal_strlit(" ");
            }
            out.append(" ");
            push_decimal(&mut out, vals[j]);
            j += 1;
        }
        proof {
            assert(vals@.take(vals@.len() as int) =~= vals@);
        }
        out
    }

    /// A cursor over the list's values, front first.
    pub fn iter(&self) -> (it: LinkedListIter<'_>)
        requires
            self.wf(),
        ensures
            it.remaining() == self@,
    {
        LinkedListIter { current: &self.head }
    }
}

} // verus!
