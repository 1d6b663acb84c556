use vstd::prelude::*;

use crate::text::{
    chars_lt, chars_of, lemma_seq_lt_asymmetric, lemma_seq_lt_total, lemma_seq_lt_transitive,
    concat_str, seq_lt,
};

verus! {

/// The position after `i` in a list of `n` files, wrapping to the first.
pub open spec fn next_index(i: nat, n: nat) -> nat {
    (i + 1) % n
}

/// The position before `i` in a list of `n` files, wrapping to the last.
pub open spec fn previous_index(i: nat, n: nat) -> nat {
    ((i + n - 1) as nat) % n
}

/// The position reached from `i` after `k` steps forward in a list of `n` files.
pub open spec fn steps_forward(i: nat, n: nat, k: nat) -> nat
    decreases k,
{
    if k == 0 {
        i
    } else {
        next_index(steps_forward(i, n, (k - 1) as nat), n)
    }
}

/// Stepping back undoes stepping forward, and stepping forward undoes
/// stepping back, at every position of a non-empty list.
pub proof fn law_previous_undoes_next(i: nat, n: nat)
    requires
        i < n,
    ensures
        previous_index(next_index(i, n), n) == i,
        next_index(previous_index(i, n), n) == i,
{
    if i + 1 < n {
        assert(next_index(i, n) == i + 1) by {
            vstd::arithmetic::div_mod::lemma_small_mod((i + 1) as nat, n);
        }
        vstd::arithmetic::div_mod::lemma_small_mod(i, n);
        assert(((i + 1 + n - 1) as nat) == i + n);
        vstd::arithmetic::div_mod::lemma_mod_add_multiples_vanish(i as int, n as int);
    } else {
        assert(next_index(i, n) == 0) by {
            vstd::arithmetic::div_mod::lemma_mod_self_0(n as int);
        }
        vstd::arithmetic::div_mod::lemma_small_mod((n - 1) as nat, n);
    }
    if i > 0 {
        assert(previous_index(i, n) == i - 1) by {
            vstd::arithmetic::div_mod::lemma_mod_add_multiples_vanish((i - 1) as int, n as int);
            vstd::arithmetic::div_mod::lemma_small_mod((i - 1) as nat, n);
        }
        vstd::arithmetic::div_mod::lemma_small_mod(i, n);
    } else {
        assert(previous_index(i, n) == n - 1) by {
            vstd::arithmetic::div_mod::lemma_small_mod((n - 1) as nat, n);
        }
        vstd::arithmetic::div_mod::lemma_mod_self_0(n as int);
    }
}

proof fn lemma_steps_forward(i: nat, n: nat, k: nat)
    requires
        i < n,
    ensures
        steps_forward(i, n, k) == (i + k) % n,
    decreases k,
{
    if k > 0 {
        lemma_steps_forward(i, n, (k - 1) as nat);
        vstd::arithmetic::div_mod::lemma_add_mod_noop_right(1, (i + k - 1) as int, n as int);
        assert(steps_forward(i, n, k) == (steps_forward(i, n, (k - 1) as nat) + 1) % n);
    } else {
        vstd::arithmetic::div_mod::lemma_small_mod(i, n);
    }
}

/// Stepping forward once per file leads back to the starting file.
pub proof fn law_next_cycles(i: nat, n: nat)
    requires
        i < n,
    ensures
        steps_forward(i, n, n) == i,
{
    lemma_steps_forward(i, n, n);
    vstd::arithmetic::div_mod::lemma_mod_add_multiples_vanish(i as int, n as int);
    vstd::arithmetic::div_mod::lemma_small_mod(i, n);
}

/// `paths` are in ascending lexicographic order.
pub open spec fn sorted_paths(paths: Seq<String>) -> bool {
    forall|i: int, j: int| 0 <= i < j < paths.len() ==> !seq_lt(paths[j]@, paths[i]@)
}

proof fn lemma_insert_sorted(s: Seq<String>, p: int, x: String)
    requires
        sorted_paths(s),
        0 <= p <= s.len(),
        forall|k: int| 0 <= k < p ==> !seq_lt(x@, #[trigger] s[k]@),
        p < s.len() ==> seq_lt(x@, s[p]@),
    ensures
        sorted_paths(s.insert(p, x)),
{
    let t = s.insert(p, x);
    assert forall|i: int, j: int| 0 <= i < j < t.len() implies !seq_lt(t[j]@, t[i]@) by {
        if i < p && j == p {
            lemma_seq_lt_total(x@, s[i]@);
            lemma_seq_lt_asymmetric(s[i]@, x@);
        } else if i == p && j > p {
            // x < s[p] <= s[j - 1]
            lemma_seq_lt_asymmetric(x@, s[p]@);
            if seq_lt(s[j - 1]@, x@) {
                if j - 1 == p {
                } else {
                    lemma_seq_lt_total(s[p]@, s[j - 1]@);
                    if seq_lt(s[p]@, s[j - 1]@) {
                        lemma_seq_lt_transitive(s[p]@, s[j - 1]@, x@);
                        lemma_seq_lt_asymmetric(x@, s[p]@);
                    }
                }
            }
        } else if i < p && j > p {
        } else if i > p {
        } else {
        }
    }
}

/// The files of a folder listing, in ascending order of their paths.
pub fn sorted_files(files: Vec<String>) -> (r: Vec<String>)
    ensures
        r@.to_multiset() == files@.to_multiset(),
        sorted_paths(r@),
{
    broadcast use vstd::seq_lib::to_multiset_insert;

    let ghost all = files@;
    let mut out: Vec<String> = Vec::new();
    let mut keys: Vec<Vec<char>> = Vec::new();
    assert(out@ =~= all.take(0));
    for f in it: files
        invariant
            it.seq() == all,
            keys@.len() == out@.len(),
            forall|k: int| 0 <= k < keys@.len() ==> #[trigger] keys@[k]@ == out@[k]@,
            sorted_paths(out@),
            out@.to_multiset() == all.take(it.index() as int).to_multiset(),
    {
        let key = chars_of(f.as_str());
        let mut p: usize = 0;
        while p < keys.len() && !chars_lt(&key, &keys[p])
            invariant
                p <= keys@.len(),
                keys@.len() == out@.len(),
                forall|k: int| 0 <= k < keys@.len() ==> #[trigger] keys@[k]@ == out@[k]@,
                forall|k: int| 0 <= k < p ==> !seq_lt(key@, #[trigger] out@[k]@),
            decreases keys@.len() - p,
        {
            assert(keys@[p as int]@ == out@[p as int]@);
            p += 1;
        }
        proof {
            if p < keys@.len() {
                assert(keys@[p as int]@ == out@[p as int]@);
            }
            lemma_insert_sorted(out@, p as int, f);
        }
        let ghost before = out@;
        let ghost keys_before = keys@;
        let ghost idx = it.index();
        out.insert(p, f);
        keys.insert(p, key);
        proof {
            assert(all.take(idx + 1) =~= all.take(idx as int).push(all[idx as int]));
            assert(f == all[idx as int]);
            vstd::seq_lib::to_multiset_insert(before, p as int, all[idx as int]);
            vstd::seq_lib::to_multiset_build(all.take(idx as int), all[idx as int]);
            assert forall|k: int| 0 <= k < keys@.len() implies #[trigger] keys@[k]@ == out@[k]@ by {
                if k < p {
                    assert(keys@[k] == keys_before[k]);
                    assert(out@[k] == before[k]);
                } else if k > p {
                    assert(keys@[k] == keys_before[k - 1]);
                    assert(out@[k] == before[k - 1]);
                }
            }
        }
    }
    proof {
        assert(all.take(all.len() as int) =~= all);
    }
    out
}

/// The state of the annotation window: the open folder, its files, the
/// selected file, whether it is playing, and the status line.
pub struct MinlabelApp {
    pub folder: Option<String>,
    pub files: Vec<String>,
    pub current_index: usize,
    pub playing: bool,
    pub show_about: bool,
    pub status: String,
}

impl MinlabelApp {
    /// The selected position lies in the file list, or is 0 when the list is empty.
    pub open spec fn wf(&self) -> bool {
        if self.files@.len() == 0 {
            self.current_index == 0
        } else {
            self.current_index < self.files@.len()
        }
    }

    /// No folder, no files, nothing playing, empty status.
    pub fn new() -> (r: Self)
        ensures
            r.wf(),
            r.folder is None,
            r.files@.len() == 0,
            r.current_index == 0,
            !r.playing,
            !r.show_about,
            r.status@ == Seq::<char>::empty(),
    {
        MinlabelApp {
            folder: None,
            files: Vec::new(),
            current_index: 0,
            playing: false,
            show_about: false,
            status: String::new(),
        }
    }

    /// Opens `folder`, whose files (as listed) are `files`: the first file is
    /// selected and playback stops.
    pub fn open_folder(&mut self, folder: String, files: Vec<String>)
        ensures
            final(self).wf(),
            final(self).folder == Some(folder),
            final(self).files == files,
            final(self).current_index == 0,
            !final(self).playing,
            final(self).show_about == old(self).show_about,
            final(self).status@ == "Opened folder: "@ + folder@,
    {
        self.status = concat_str("Opened folder: ", folder.as_str());
        self.folder = Some(folder);
        self.files = files;
        self.current_index = 0;
        self.playing = false;
    }

    /// Selects the next file, after the last the first; playback stops.
    /// Nothing changes when there are no files.
    pub fn next_file(&mut self)
        requires
            old(self).files@.len() == 0 || old(self).current_index < old(self).files@.len(),
        ensures
            old(self).wf() ==> final(self).wf(),
            old(self).files@.len() == 0 ==> *final(self) == *old(self),
            old(self).files@.len() > 0 ==> {
                &&& final(self).wf()
                &&& final(self).current_index == next_index(
                    old(self).current_index as nat,
                    old(self).files@.len(),
                )
                &&& !final(self).playing
                &&& final(self).files == old(self).files
                &&& final(self).folder == old(self).folder
                &&& final(self).status == old(self).status
                &&& final(self).show_about == old(self).show_about
            },
    {
        if self.files.len() == 0 {
            return;
        }
        self.current_index = (self.current_index + 1) % self.files.len();
        self.playing = false;
    }

    /// Selects the previous file, before the first the last; playback stops.
    /// Nothing changes when there are no files.
    pub fn previous_file(&mut self)
        requires
            old(self).files@.len() == 0 || old(self).current_index < old(self).files@.len(),
        ensures
            old(self).wf() ==> final(self).wf(),
            old(self).files@.len() == 0 ==> *final(self) == *old(self),
            old(self).files@.len() > 0 ==> {
                &&& final(self).wf()
                &&& final(self).current_index == previous_index(
                    old(self).current_index as nat,
                    old(self).files@.len(),
                )
                &&& !final(self).playing
                &&& final(self).files == old(self).files
                &&& final(self).folder == old(self).folder
                &&& final(self).status == old(self).status
                &&& final(self).show_about == old(self).show_about
            },
    {
        if self.files.len() == 0 {
            return;
        }
        let n: usize = self.files.len();
        if self.current_index == 0 {
            self.current_index = n - 1;
            assert(((0 + n - 1) as int) % (n as int) == n - 1) by (nonlinear_arith)
                requires
                    n > 0,
            ;
        } else {
            let i: usize = self.current_index;
            self.current_index = i - 1;
            assert(((i + n - 1) as int) % (n as int) == i - 1) by (nonlinear_arith)
                requires
                    0 < i < n,
            ;
        }
        self.playing = false;
    }

    /// Starts or stops playback; with no files loaded the status says so instead.
    pub fn toggle_play(&mut self)
        ensures
            old(self).files@.len() == 0 ==> {
                &&& final(self).status@ == "No files loaded. Open a folder first."@
                &&& final(self).playing == old(self).playing
            },
            old(self).files@.len() > 0 ==> {
                &&& final(self).playing == !old(self).playing
                &&& final(self).status == old(self).status
            },
            final(self).files == old(self).files,
            final(self).folder == old(self).folder,
            final(self).current_index == old(self).current_index,
            final(self).show_about == old(self).show_about,
    {
        if self.files.len() == 0 {
            self.status = "No files loaded. Open a folder first.".to_owned();
            return;
        }
        self.playing = !self.playing;
    }

    /// Records the chosen export target in the status line.
    pub fn export_to(&mut self, target: &str)
        ensures
            final(self).status@ == "Export to: "@ + target@,
            final(self).files == old(self).files,
            final(self).folder == old(self).folder,
            final(self).current_index == old(self).current_index,
            final(self).playing == old(self).playing,
            final(self).show_about == old(self).show_about,
    {
        self.status = concat_str("Export to: ", target);
    }

    /// Connecting from the window is not available yet; the status says so.
    pub fn connect(&mut self)
        ensures
            final(self).status@ == "Connect: not implemented yet"@,
            final(self).files == old(self).files,
            final(self).folder == old(self).folder,
            final(self).current_index == old(self).current_index,
            final(self).playing == old(self).playing,
            final(self).show_about == old(self).show_about,
    {
        self.status = "Connect: not implemented yet".to_owned();
    }

    /// The selected file, if there is one.
    pub fn current_file(&self) -> (r: Option<&String>)
        ensures
            self.current_index < self.files@.len() ==> r == Some(&self.files@[self.current_index as int]),
            self.current_index >= self.files@.len() ==> r is None,
    {
        if self.current_index < self.files.len() {
            Some(&self.files[self.current_index])
        } else {
            None
        }
    }

    /// Selects the file at position `i` in the list; playback stops.
    pub fn select_file(&mut self, i: usize)
        requires
            i < old(self).files@.len(),
        ensures
            final(self).wf(),
            final(self).current_index == i,
            !final(self).playing,
            final(self).files == old(self).files,
            final(self).folder == old(self).folder,
            final(self).status == old(self).status,
            final(self).show_about == old(self).show_about,
    {
        self.current_index = i;
        self.playing = false;
    }

    /// The selected position counted from 1 (0 with no files) and the number of files.
    pub fn position(&self) -> (r: (usize, usize))
        requires
            self.files@.len() > 0 ==> self.current_index < usize::MAX,
        ensures
            r.1 == self.files@.len(),
            r.0 == if self.files@.len() == 0 {
                0
            } else {
                self.current_index + 1
            },
    {
        if self.files.len() == 0 {
            (0, 0)
        } else {
            (self.current_index + 1, self.files.len())
        }
    }

    /// How playback is shown.
    pub fn playback_label(&self) -> (r: &'static str)
        ensures
            r@ == if self.playing {
                "Playing"@
            } else {
                "Stopped"@
            },
    {
        if self.playing {
            "Playing"
        } else {
            "Stopped"
        }
    }
}

} // verus!
