use vstd::prelude::*;
use vstd::string::StrSliceExecFns;

verus! {

/// A fully-qualified domain name split at its first `.`.
///
/// `name` is the leftmost label, `root` the zone the provider manages
/// (everything after the first `.`, which may itself contain dots), and
/// `full` the original dotted string.
pub struct Domain {
    pub name: String,
    pub root: String,
    pub full: String,
}

/// Mathematical image of a [`Domain`]: each field as a character sequence.
pub ghost struct DomainView {
    pub name: Seq<char>,
    pub root: Seq<char>,
    pub full: Seq<char>,
}

impl View for Domain {
    type V = DomainView;

    open spec fn view(&self) -> DomainView {
        DomainView { name: self.name@, root: self.root@, full: self.full@ }
    }
}

/// True when some character of `s` is a `.`.
pub open spec fn has_dot(s: Seq<char>) -> bool {
    exists|i: int| 0 <= i < s.len() && s[i] == '.'
}

/// True when position `p` holds the first `.` of `s`.
pub open spec fn is_first_dot(s: Seq<char>, p: int) -> bool {
    &&& 0 <= p < s.len()
    &&& s[p] == '.'
    &&& forall|j: int| 0 <= j < p ==> s[j] != '.'
}

impl Domain {
    /// Splits `repr` at its first `.` into leftmost label and root zone.
    ///
    /// Returns `None` exactly when `repr` contains no `.` at all (there is
    /// then no zone separator); otherwise the parts recompose to the input:
    /// `full` is `repr` unchanged and equals `name + "." + root`.
    pub fn new(repr: &str) -> (r: Option<Domain>)
        ensures
            match r {
                Some(d) => {
                    &&& d@.full == repr@
                    &&& is_first_dot(repr@, d@.name.len() as int)
                    &&& d@.name == repr@.subrange(0, d@.name.len() as int)
                    &&& d@.root == repr@.subrange(
                        d@.name.len() as int + 1,
                        repr@.len() as int,
                    )
                    &&& d@.full == d@.name + seq!['.'] + d@.root
                },
                None => !has_dot(repr@),
            },
    {
        let len = repr.unicode_len();
        let mut i: usize = 0;
        while i < len
            invariant
                i <= len,
                len == repr@.len(),
                forall|j: int| 0 <= j < i ==> repr@[j] != '.',
            decreases len - i,
        {
            if repr.get_char(i) == '.' {
                let name = repr.substring_char(0, i).to_owned();
                let root = repr.substring_char(i + 1, len).to_owned();
                let full = repr.to_owned();
                proof {
                    assert(repr@ =~= repr@.subrange(0, i as int) + seq!['.']
                        + repr@.subrange(i as int + 1, len as int));
                }
                return Some(Domain { name, root, full });
            }
            i += 1;
        }
        None
    }
}

} // verus!
