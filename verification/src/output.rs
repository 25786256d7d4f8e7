//! Small client-side display state: a guarded single-value buffer and the
//! five-line output panel the interface renders.

use vstd::prelude::*;
use vstd::string::StringExecFns;

verus! {

/// A single buffered value, replaced wholesale.
pub struct BuffWrapper<T> {
    pub wrapped: T,
}

impl<T> BuffWrapper<T> {
    pub open spec fn value(self) -> T {
        self.wrapped
    }

    pub fn new(content: T) -> (r: Self)
        ensures
            r.value() == content,
    {
        BuffWrapper { wrapped: content }
    }

    pub fn set(&mut self, new: T)
        ensures
            final(self).value() == new,
    {
        self.wrapped = new;
    }

    pub fn get(&self) -> (r: &T)
        ensures
            r == self.value(),
    {
        &self.wrapped
    }
}

/// The number of lines in the output panel.
pub const OUTPUT_LINES: usize = 5;

/// The output panel: a fixed number of text lines addressed by index.
/// Writes outside the panel are ignored.
pub struct Output {
    pub lines: Vec<String>,
}

impl Output {
    pub open spec fn view_lines(self) -> Seq<Seq<char>> {
        self.lines.deep_view()
    }

    pub open spec fn wf(self) -> bool {
        self.lines@.len() == OUTPUT_LINES
    }

    /// An empty panel.
    pub fn new() -> (r: Output)
        ensures
            r.wf(),
            forall|i: int| 0 <= i < OUTPUT_LINES ==> r.view_lines()[i] == Seq::<char>::empty(),
    {
        let mut lines: Vec<String> = Vec::new();
        let mut i: usize = 0;
        while i < OUTPUT_LINES
            invariant
                i <= OUTPUT_LINES,
                lines@.len() == i,
                forall|k: int| 0 <= k < i ==> lines.deep_view()[k] == Seq::<char>::empty(),
            decreases OUTPUT_LINES - i,
        {
            let ghost prev = lines.deep_view();
            lines.push(String::new());
            proof {
                assert(lines.deep_view() =~= prev.push(Seq::<char>::empty()));
            }
            i = i + 1;
        }
        Output { lines }
    }

    /// The line at `index`, if the index is inside the panel.
    pub fn get(&self, index: usize) -> (r: Option<&String>)
        requires
            self.wf(),
        ensures
            match r {
                Some(s) => index < OUTPUT_LINES && s@ == self.view_lines()[index as int],
                None => index >= OUTPUT_LINES,
            },
    {
        if self.lines.len() <= index {
            return None;
        }
        Some(&self.lines[index])
    }

    /// Replace the line at `index`; out-of-range writes do nothing.
    pub fn set(&mut self, index: usize, value: String)
        requires
            old(self).wf(),
        ensures
            final(self).wf(),
            index < OUTPUT_LINES ==> final(self).view_lines() == old(self).view_lines().update(
                index as int,
                value@,
            ),
            index >= OUTPUT_LINES ==> *final(self) == *old(self),
    {
        if index >= self.lines.len() {
            return ;
        }
        self.lines.set(index, value);
        proof {
            assert(self.view_lines() =~= old(self).view_lines().update(index as int, value@));
        }
    }

    /// Clear the panel and put one message on its middle line.
    pub fn one(&mut self, value: String)
        requires
            old(self).wf(),
        ensures
            final(self).wf(),
            forall|i: int|
                0 <= i < OUTPUT_LINES ==> final(self).view_lines()[i] == (if i == OUTPUT_LINES
                    as int / 2 {
                    value@
                } else {
                    Seq::<char>::empty()
                }),
    {
        let mut x: usize = 0;
        while x < self.lines.len()
            invariant
                old(self).wf(),
                self.wf(),
                x <= OUTPUT_LINES,
                forall|i: int|
                    0 <= i < x ==> self.view_lines()[i] == (if i == OUTPUT_LINES as int / 2 {
                        value@
                    } else {
                        Seq::<char>::empty()
                    }),
            decreases self.lines@.len() - x,
        {
            let ghost prev = self.view_lines();
            if x == self.lines.len() / 2 {
                self.lines.set(x, value.clone());
                proof {
                    assert(self.view_lines() =~= prev.update(x as int, value@));
                }
            } else {
                self.lines.set(x, String::new());
                proof {
                    assert(self.view_lines() =~= prev.update(x as int, Seq::<char>::empty()));
                }
            }
            x = x + 1;
        }
    }

    /// Append text to the line at `index`; out-of-range writes do nothing.
    pub fn append(&mut self, index: usize, app: &str)
        requires
            old(self).wf(),
        ensures
            final(self).wf(),
            index < OUTPUT_LINES ==> final(self).view_lines() == old(self).view_lines().update(
                index as int,
                old(self).view_lines()[index as int] + app@,
            ),
            index >= OUTPUT_LINES ==> *final(self) == *old(self),
    {
        if self.lines.len() <= index {
            return ;
        }
        let mut line = self.lines[index].clone();
        line.append(app);
        self.lines.set(index, line);
        proof {
            assert(self.view_lines() =~= old(self).view_lines().update(
                index as int,
                old(self).view_lines()[index as int] + app@,
            ));
        }
    }
}

} // verus!
