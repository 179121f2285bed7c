//! Immutable PCM buffers and the bank that owns them by name. Sample data is
//! held as signed 16-bit values, full scale at 32767; the synthesized kit is
//! produced outside the core and handed in as plain data. A missing name is
//! an expected outcome for callers, never an error: a voice referring to one
//! simply goes silent.

use vstd::prelude::*;

verus! {

/// An immutable PCM buffer: samples, their rate, and the channel count.
#[derive(Debug, Clone)]
pub struct Sample {
    pub data: Vec<i16>,
    pub sample_rate: u32,
    pub channels: u16,
}

impl Sample {
    /// Wraps raw PCM data unchanged.
    pub fn from_data(data: Vec<i16>, sample_rate: u32, channels: u16) -> (r: Sample)
        ensures
            r.data@ == data@,
            r.sample_rate == sample_rate,
            r.channels == channels,
    {
        Sample { data, sample_rate, channels }
    }

    /// The number of stored samples.
    pub fn len(&self) -> (r: usize)
        ensures
            r == self.data@.len(),
    {
        self.data.len()
    }
}

/// The first sample stored under `name`, searching the entries in order.
pub open spec fn find_sample(entries: Seq<(String, Sample)>, name: Seq<char>) -> Option<Sample>
    decreases entries.len(),
{
    if entries.len() == 0 {
        None
    } else if entries[0].0@ == name {
        Some(entries[0].1)
    } else {
        find_sample(entries.drop_first(), name)
    }
}

/// No two entries carry the same name.
pub open spec fn distinct_names(entries: Seq<(String, Sample)>) -> bool {
    forall|j: int, k: int|
        0 <= j < k < entries.len() ==> entries[j].0@ != entries[k].0@
}

/// A mapping from sample names to PCM buffers, populated at startup and
/// edited off the audio thread.
#[derive(Debug)]
pub struct SampleBank {
    samples: Vec<(String, Sample)>,
}

impl SampleBank {
    /// The stored entries, in insertion order.
    pub closed spec fn entries(self) -> Seq<(String, Sample)> {
        self.samples@
    }

    /// Every name appears at most once; holds from construction on.
    pub open spec fn wf(self) -> bool {
        distinct_names(self.entries())
    }

    /// An empty bank.
    pub fn new() -> (r: SampleBank)
        ensures
            r.wf(),
            r.entries().len() == 0,
    {
        SampleBank { samples: Vec::new() }
    }

    /// Stores `sample` under `name`, replacing what the name held before.
    #[verifier::loop_isolation(false)]
    pub fn add_sample(&mut self, name: String, sample: Sample)
        requires
            old(self).wf(),
        ensures
            final(self).wf(),
            find_sample(final(self).entries(), name@) == Some(sample),
            forall|n: Seq<char>|
                n != name@ ==> find_sample(final(self).entries(), n) == find_sample(
                    old(self).entries(),
                    n,
                ),
    {
        let ghost entries0 = self.samples@;
        let mut i: usize = 0;
        while i < self.samples.len()
            invariant
                self.samples@ == entries0,
                i <= entries0.len(),
                forall|j: int| 0 <= j < i ==> entries0[j].0@ != name@,
            decreases entries0.len() - i,
        {
            if self.samples[i].0 == name {
                proof {
                    assert(entries0[i as int].0@ == name@);
                    lemma_find_after_update(entries0, i as int, (name, sample));
                }
                self.samples.set(i, (name, sample));
                proof {
                    assert(self.samples@ == entries0.update(i as int, (name, sample)));
                    assert(find_sample(self.samples@, name@) == Some(sample));
                    assert forall|x: int|
                        0 <= x < self.samples@.len() implies self.samples@[x].0@
                        == entries0[x].0@ by {
                        if x == i as int {
                            assert(self.samples@[x] == (name, sample));
                        } else {
                            assert(self.samples@[x] == entries0[x]);
                        }
                    }
                    assert forall|j: int, k: int|
                        0 <= j < k < self.samples@.len() implies self.samples@[j].0@
                        != self.samples@[k].0@ by {
                        assert(self.samples@[j].0@ == entries0[j].0@);
                        assert(self.samples@[k].0@ == entries0[k].0@);
                    }
                }
                return;
            }
            i = i + 1;
        }
        proof {
            lemma_find_none_iff(entries0, name@);
            lemma_find_after_push(entries0, (name, sample));
        }
        self.samples.push((name, sample));
        proof {
            assert forall|j: int, k: int|
                0 <= j < k < self.samples@.len() implies self.samples@[j].0@
                    != self.samples@[k].0@ by {
                if k < entries0.len() {
                    assert(self.samples@[j] == entries0[j]);
                    assert(self.samples@[k] == entries0[k]);
                } else {
                    assert(self.samples@[j] == entries0[j]);
                }
            }
        }
    }

    /// The sample stored under `name`, if any.
    #[verifier::loop_isolation(false)]
    pub fn get_sample<'a>(&'a self, name: &str) -> (r: Option<&'a Sample>)
        ensures
            r is Some <==> find_sample(self.entries(), name@) is Some,
            r matches Some(smp) ==> find_sample(self.entries(), name@) == Some(*smp),
    {
        let owned = name.to_owned();
        let ghost entries = self.samples@;
        proof {
            assert(entries.skip(0) =~= entries);
        }
        let mut i: usize = 0;
        while i < self.samples.len()
            invariant
                owned@ == name@,
                entries == self.samples@,
                i <= entries.len(),
                find_sample(entries, name@) == find_sample(entries.skip(i as int), name@),
            decreases entries.len() - i,
        {
            proof {
                assert(entries.skip(i as int)[0] == entries[i as int]);
                assert(entries.skip(i as int).drop_first() =~= entries.skip(i as int + 1));
            }
            if self.samples[i].0 == owned {
                return Some(&self.samples[i].1);
            }
            i = i + 1;
        }
        proof {
            assert(entries.skip(entries.len() as int) =~= Seq::<(String, Sample)>::empty());
        }
        None
    }

    /// Removes and returns the sample stored under `name`, if any.
    #[verifier::loop_isolation(false)]
    pub fn remove_sample(&mut self, name: &str) -> (r: Option<Sample>)
        requires
            old(self).wf(),
        ensures
            final(self).wf(),
            r == find_sample(old(self).entries(), name@),
            find_sample(final(self).entries(), name@) is None,
            forall|n: Seq<char>|
                n != name@ ==> find_sample(final(self).entries(), n) == find_sample(
                    old(self).entries(),
                    n,
                ),
    {
        let owned = name.to_owned();
        let ghost entries0 = self.samples@;
        proof {
            assert(entries0.skip(0) =~= entries0);
        }
        let mut i: usize = 0;
        while i < self.samples.len()
            invariant
                owned@ == name@,
                entries0 == self.samples@,
                i <= entries0.len(),
                forall|j: int| 0 <= j < i ==> entries0[j].0@ != name@,
                find_sample(entries0, name@) == find_sample(entries0.skip(i as int), name@),
            decreases entries0.len() - i,
        {
            proof {
                assert(entries0.skip(i as int)[0] == entries0[i as int]);
                assert(entries0.skip(i as int).drop_first() =~= entries0.skip(i as int + 1));
            }
            if self.samples[i].0 == owned {
                proof {
                    lemma_find_after_remove(entries0, i as int);
                    assert(find_sample(entries0.skip(i as int), name@) == Some(
                        entries0[i as int].1,
                    ));
                }
                let removed = self.samples.remove(i);
                proof {
                    lemma_find_none_iff(self.samples@, name@);
                }
                return Some(removed.1);
            }
            i = i + 1;
        }
        proof {
            assert(entries0.skip(entries0.len() as int) =~= Seq::<(String, Sample)>::empty());
        }
        None
    }

    /// The stored names, in order.
    #[verifier::loop_isolation(false)]
    pub fn list_samples(&self) -> (r: Vec<&String>)
        ensures
            r@.len() == self.entries().len(),
            forall|i: int| 0 <= i < r@.len() ==> *r@[i] == self.entries()[i].0,
    {
        let mut names: Vec<&String> = Vec::new();
        let mut i: usize = 0;
        while i < self.samples.len()
            invariant
                i <= self.samples@.len(),
                names@.len() == i,
                forall|j: int| 0 <= j < i ==> *names@[j] == self.samples@[j].0,
            decreases self.samples@.len() - i,
        {
            names.push(&self.samples[i].0);
            i = i + 1;
        }
        names
    }
}

/// A name misses every entry exactly when the search returns nothing.
proof fn lemma_find_none_iff(s: Seq<(String, Sample)>, n: Seq<char>)
    ensures
        (find_sample(s, n) is None) <==> (forall|j: int| 0 <= j < s.len() ==> s[j].0@ != n),
    decreases s.len(),
{
    if s.len() > 0 {
        let df = s.drop_first();
        lemma_find_none_iff(df, n);
        if find_sample(s, n) is None {
            assert forall|j: int| 0 <= j < s.len() implies s[j].0@ != n by {
                if j > 0 {
                    assert(df[j - 1] == s[j]);
                }
            }
        } else {
            if s[0].0@ != n {
                let j0 = choose|j: int| 0 <= j < df.len() && df[j].0@ == n;
                assert(df[j0] == s[j0 + 1]);
            }
        }
    }
}

/// Replacing the first entry that carries a name with another entry of the
/// same name changes what that name finds and nothing else.
proof fn lemma_find_after_update(s: Seq<(String, Sample)>, i: int, e: (String, Sample))
    requires
        0 <= i < s.len(),
        e.0@ == s[i].0@,
        forall|j: int| 0 <= j < i ==> s[j].0@ != s[i].0@,
    ensures
        find_sample(s.update(i, e), s[i].0@) == Some(e.1),
        forall|n: Seq<char>|
            n != s[i].0@ ==> find_sample(s.update(i, e), n) == find_sample(s, n),
    decreases i,
{
    let u = s.update(i, e);
    if i == 0 {
        assert(u[0] == e);
        assert(u.drop_first() =~= s.drop_first());
        assert forall|n: Seq<char>| n != s[0].0@ implies find_sample(u, n) == find_sample(
            s,
            n,
        ) by {
            assert(find_sample(u, n) == find_sample(u.drop_first(), n));
            assert(find_sample(s, n) == find_sample(s.drop_first(), n));
        }
    } else {
        assert(u[0] == s[0]);
        assert(u.drop_first() =~= s.drop_first().update(i - 1, e));
        assert(s.drop_first()[i - 1] == s[i]);
        assert(forall|j: int| 0 <= j < i - 1 ==> s.drop_first()[j] == s[j + 1]);
        lemma_find_after_update(s.drop_first(), i - 1, e);
        assert(find_sample(u, s[i].0@) == find_sample(u.drop_first(), s[i].0@));
        assert forall|n: Seq<char>| n != s[i].0@ implies find_sample(u, n) == find_sample(
            s,
            n,
        ) by {
            if s[0].0@ != n {
                assert(find_sample(u, n) == find_sample(u.drop_first(), n));
                assert(find_sample(s, n) == find_sample(s.drop_first(), n));
            }
        }
    }
}

/// Appending an entry leaves every present name as it was and makes the new
/// entry's name find it, if that name was absent.
proof fn lemma_find_after_push(s: Seq<(String, Sample)>, e: (String, Sample))
    ensures
        forall|n: Seq<char>|
            find_sample(s, n) is Some ==> find_sample(s.push(e), n) == find_sample(s, n),
        find_sample(s, e.0@) is None ==> find_sample(s.push(e), e.0@) == Some(e.1),
        forall|n: Seq<char>|
            n != e.0@ && find_sample(s, n) is None ==> find_sample(s.push(e), n) is None,
    decreases s.len(),
{
    let p = s.push(e);
    if s.len() == 0 {
        assert(p[0] == e);
        assert(p.drop_first() =~= Seq::<(String, Sample)>::empty());
        assert forall|n: Seq<char>|
            n != e.0@ && find_sample(s, n) is None implies find_sample(p, n) is None by {
            assert(find_sample(p, n) == find_sample(p.drop_first(), n));
        }
    } else {
        assert(p[0] == s[0]);
        assert(p.drop_first() =~= s.drop_first().push(e));
        lemma_find_after_push(s.drop_first(), e);
        assert forall|n: Seq<char>|
            find_sample(s, n) is Some implies find_sample(p, n) == find_sample(s, n) by {
            if s[0].0@ != n {
                assert(find_sample(p, n) == find_sample(p.drop_first(), n));
                assert(find_sample(s, n) == find_sample(s.drop_first(), n));
            }
        }
        if find_sample(s, e.0@) is None {
            assert(s[0].0@ != e.0@);
            assert(find_sample(p, e.0@) == find_sample(p.drop_first(), e.0@));
            assert(find_sample(s, e.0@) == find_sample(s.drop_first(), e.0@));
        }
        assert forall|n: Seq<char>|
            n != e.0@ && find_sample(s, n) is None implies find_sample(p, n) is None by {
            assert(s[0].0@ != n);
            assert(find_sample(p, n) == find_sample(p.drop_first(), n));
            assert(find_sample(s, n) == find_sample(s.drop_first(), n));
        }
    }
}

/// Removing the first entry that carries a name leaves every other name as it
/// was; under distinct names the removed name then finds nothing.
proof fn lemma_find_after_remove(s: Seq<(String, Sample)>, i: int)
    requires
        0 <= i < s.len(),
        forall|j: int| 0 <= j < i ==> s[j].0@ != s[i].0@,
        distinct_names(s),
    ensures
        distinct_names(s.remove(i)),
        forall|n: Seq<char>|
            n != s[i].0@ ==> find_sample(s.remove(i), n) == find_sample(s, n),
        forall|j: int| 0 <= j < s.remove(i).len() ==> s.remove(i)[j].0@ != s[i].0@,
    decreases i,
{
    let u = s.remove(i);
    assert(forall|j: int| 0 <= j < i ==> u[j] == s[j]);
    assert(forall|j: int| i <= j < u.len() ==> u[j] == s[j + 1]);
    if i == 0 {
        assert(u =~= s.drop_first());
        assert forall|n: Seq<char>| n != s[0].0@ implies find_sample(u, n) == find_sample(
            s,
            n,
        ) by {
            assert(find_sample(s, n) == find_sample(s.drop_first(), n));
        }
    } else {
        assert(u[0] == s[0]);
        assert(u.drop_first() =~= s.drop_first().remove(i - 1));
        assert(s.drop_first()[i - 1] == s[i]);
        assert(forall|j: int| 0 <= j < s.drop_first().len() ==> s.drop_first()[j] == s[j + 1]);
        lemma_find_after_remove(s.drop_first(), i - 1);
        assert forall|n: Seq<char>| n != s[i].0@ implies find_sample(u, n) == find_sample(
            s,
            n,
        ) by {
            if s[0].0@ != n {
                assert(find_sample(u, n) == find_sample(u.drop_first(), n));
                assert(find_sample(s, n) == find_sample(s.drop_first(), n));
            }
        }
    }
}

} // verus!
