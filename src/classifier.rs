use vstd::prelude::*;

verus! {

/// `suffix` is a tail of `s`.
pub open spec fn ends_with(s: Seq<char>, suffix: Seq<char>) -> bool {
    suffix.len() <= s.len() && s.subrange(s.len() - suffix.len(), s.len() as int) == suffix
}

pub open spec fn arw_ext() -> Seq<char> {
    seq!['.', 'A', 'R', 'W']
}

pub open spec fn cr3_ext() -> Seq<char> {
    seq!['.', 'C', 'R', '3']
}

pub open spec fn mp4_ext() -> Seq<char> {
    seq!['.', 'M', 'P', '4']
}

/// The standard allowlist: two raw image formats and one video format.
pub open spec fn standard_extensions() -> Seq<Seq<char>> {
    seq![arw_ext(), cr3_ext(), mp4_ext()]
}

/// `name` ends with one of `extensions` (case-sensitive).
pub open spec fn has_listed_extension(name: Seq<char>, extensions: Seq<Seq<char>>) -> bool {
    exists|i: int| 0 <= i < extensions.len() && ends_with(name, #[trigger] extensions[i])
}

/// `name` is eligible under the standard allowlist.
pub open spec fn supported_name(name: Seq<char>) -> bool {
    has_listed_extension(name, standard_extensions())
}

/// Whether `s` ends with `suffix`, compared character by character.
fn str_ends_with(s: &str, suffix: &str) -> (r: bool)
    ensures
        r == ends_with(s@, suffix@),
{
    let n = s.unicode_len();
    let k = suffix.unicode_len();
    if k > n {
        return false;
    }
    let start: usize = n - k;
    let mut i: usize = 0;
    while i < k
        invariant
            n == s@.len(),
            k == suffix@.len(),
            start == n - k,
            i <= k,
            forall|j: int| 0 <= j < i ==> s@[start + j] == suffix@[j],
        decreases k - i,
    {
        if s.get_char(start + i) != suffix.get_char(i) {
            assert(s@.subrange(start as int, n as int)[i as int] != suffix@[i as int]);
            return false;
        }
        i = i + 1;
    }
    assert(s@.subrange(start as int, n as int) =~= suffix@);
    true
}

/// True iff `name` ends with `.ARW`, `.CR3` or `.MP4` (case-sensitive).
pub fn is_supported_file(name: &str) -> (r: bool)
    ensures
        r == supported_name(name@),
{
    proof {
        reveal_strlit(".ARW");
        reveal_strlit(".CR3");
        reveal_strlit(".MP4");
        assert(".ARW"@ =~= arw_ext());
        assert(".CR3"@ =~= cr3_ext());
        assert(".MP4"@ =~= mp4_ext());
        assert(standard_extensions()[0] == arw_ext());
        assert(standard_extensions()[1] == cr3_ext());
        assert(standard_extensions()[2] == mp4_ext());
    }
    let r = str_ends_with(name, ".ARW") || str_ends_with(name, ".CR3") || str_ends_with(name, ".MP4");
    proof {
        if r {
            if ends_with(name@, arw_ext()) {
                assert(ends_with(name@, standard_extensions()[0]));
            } else if ends_with(name@, cr3_ext()) {
                assert(ends_with(name@, standard_extensions()[1]));
            } else {
                assert(ends_with(name@, standard_extensions()[2]));
            }
        }
    }
    r
}

/// An allowlist of file-name suffixes that decides which files are eligible.
pub struct Classifier {
    extensions: Vec<String>,
}

impl View for Classifier {
    type V = Seq<Seq<char>>;

    closed spec fn view(&self) -> Seq<Seq<char>> {
        self.extensions@.map_values(|e: String| e@)
    }
}

impl Classifier {
    /// A classifier over the given suffixes.
    pub fn new(extensions: Vec<String>) -> (r: Classifier)
        ensures
            r@ == extensions@.map_values(|e: String| e@),
    {
        Classifier { extensions }
    }

    /// The classifier for `.ARW`, `.CR3` and `.MP4`.
    pub fn standard() -> (r: Classifier)
        ensures
            r@ == standard_extensions(),
    {
        let mut extensions: Vec<String> = Vec::new();
        extensions.push(String::from_str(".ARW"));
        extensions.push(String::from_str(".CR3"));
        extensions.push(String::from_str(".MP4"));
        proof {
            reveal_strlit(".ARW");
            reveal_strlit(".CR3");
            reveal_strlit(".MP4");
        }
        assert(extensions@[0]@ =~= arw_ext());
        assert(extensions@[1]@ =~= cr3_ext());
        assert(extensions@[2]@ =~= mp4_ext());
        let r = Classifier { extensions };
        assert(r@ =~= standard_extensions());
        r
    }

    /// True iff `name` ends with one of this classifier's suffixes.
    pub fn accepts(&self, name: &str) -> (r: bool)
        ensures
            r == has_listed_extension(name@, self@),
    {
        let mut i: usize = 0;
        while i < self.extensions.len()
            invariant
                i <= self.extensions@.len(),
                forall|j: int| 0 <= j < i ==> !ends_with(name@, #[trigger] self@[j]),
            decreases self.extensions@.len() - i,
        {
            if str_ends_with(name, self.extensions[i].as_str()) {
                assert(ends_with(name@, self@[i as int]));
                return true;
            }
            i = i + 1;
        }
        false
    }
}

} // verus!
