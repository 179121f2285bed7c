//! A project: its metadata, its timeline, and project-wide tempo and
//! volume, as the values an outside persistence collaborator snapshots and
//! restores. Tempo is in thousandths of a beat per minute, volume in
//! thousandths of full scale.

use vstd::prelude::*;
use vstd::string::StringExecFns;
use crate::settings::DefaultSettings;
use crate::text::is_blank;
use crate::timeline::Timeline;

verus! {

/// Name, version and bookkeeping timestamps of a project.
#[derive(Debug, Clone)]
pub struct ProjectMetadata {
    pub name: String,
    pub version: String,
    pub created_at: String,
    pub modified_at: String,
    pub author: Option<String>,
    pub description: Option<String>,
}

impl Default for ProjectMetadata {
    /// An untitled project stamped with the present moment.
    fn default() -> (r: ProjectMetadata)
        ensures
            r.name@ == "Untitled Project"@,
            r.version@ == "1.0"@,
            r.created_at@.len() > 0,
            r.modified_at == r.created_at,
            r.author is None,
            r.description is None,
    {
        let now = now_utc_string();
        ProjectMetadata {
            name: String::from_str("Untitled Project"),
            version: String::from_str("1.0"),
            created_at: now.clone(),
            modified_at: now,
            author: None,
            description: None,
        }
    }
}

/// Relies on chrono's Utc::now and its formatter: the present moment written
/// as a nonempty human-readable timestamp. The value depends on the clock.
#[verifier::external_body]
fn now_utc_string() -> (r: String)
    ensures
        r@.len() > 0,
{
    chrono::Utc::now().format("%Y-%m-%d %H:%M:%S UTC").to_string()
}

/// Rejection of a project whose values are out of range.
#[derive(Debug, Clone, Copy, PartialEq, Eq, Structural)]
pub enum ProjectError {
    EmptyName,
    BpmOutOfRange,
    VolumeOutOfRange,
    SegmentBpmOutOfRange,
    SegmentLoopCountZero,
}

/// The verdict on the segments from position `i` on: the first whose tempo
/// leaves 60..=300 beats per minute or whose loop count is zero decides,
/// tempo checked first; none offending clears them all.
pub open spec fn segment_check(
    s: Seq<crate::timeline::TimelineSegment>,
    i: int,
) -> Option<ProjectError>
    decreases s.len() - i,
{
    if i < 0 || i >= s.len() {
        None
    } else if !(60_000 <= s[i].bpm <= 300_000) {
        Some(ProjectError::SegmentBpmOutOfRange)
    } else if s[i].loop_count == 0 {
        Some(ProjectError::SegmentLoopCountZero)
    } else {
        segment_check(s, i + 1)
    }
}

/// The whole of a project: metadata, timeline, and the global tempo and
/// volume.
#[derive(Debug, Clone)]
pub struct Project {
    pub metadata: ProjectMetadata,
    pub timeline: Timeline,
    pub global_bpm: u32,
    pub global_volume: u32,
}

impl Default for Project {
    /// An untitled project with an empty timeline at 120 beats per minute
    /// and unity volume.
    fn default() -> (r: Project)
        ensures
            r.metadata.name@ == "Untitled Project"@,
            r.timeline.segments@.len() == 0,
            r.timeline.current_position == 0,
            r.global_bpm == 120_000,
            r.global_volume == 1000,
    {
        Project {
            metadata: ProjectMetadata::default(),
            timeline: Timeline::new(),
            global_bpm: 120_000,
            global_volume: 1000,
        }
    }
}

impl Project {
    /// A new empty project under the given name.
    pub fn new(name: String) -> (r: Project)
        ensures
            r.metadata.name == name,
            r.timeline.segments@.len() == 0,
            r.global_bpm == 120_000,
            r.global_volume == 1000,
    {
        let mut project = Project::default();
        project.metadata.name = name;
        project
    }

    /// A new empty project under the given name, at the default tempo the
    /// settings ask for.
    pub fn new_with_defaults(name: String, defaults: &DefaultSettings) -> (r: Project)
        ensures
            r.metadata.name == name,
            r.timeline.segments@.len() == 0,
            r.global_bpm == defaults.default_bpm,
            r.global_volume == 1000,
    {
        let mut project = Project::default();
        project.metadata.name = name;
        project.global_bpm = defaults.default_bpm;
        project
    }

    /// Updates the fields that were given and stamps the modification time.
    pub fn update_metadata(
        &mut self,
        name: Option<String>,
        author: Option<String>,
        description: Option<String>,
    )
        ensures
            final(self).metadata.name == if name is Some {
                name.unwrap()
            } else {
                old(self).metadata.name
            },
            final(self).metadata.author == if author is Some {
                author
            } else {
                old(self).metadata.author
            },
            final(self).metadata.description == if description is Some {
                description
            } else {
                old(self).metadata.description
            },
            final(self).metadata.version == old(self).metadata.version,
            final(self).metadata.created_at == old(self).metadata.created_at,
            final(self).metadata.modified_at@.len() > 0,
            final(self).timeline == old(self).timeline,
            final(self).global_bpm == old(self).global_bpm,
            final(self).global_volume == old(self).global_volume,
    {
        match name {
            Some(n) => {
                self.metadata.name = n;
            },
            None => {},
        }
        match author {
            Some(a) => {
                self.metadata.author = Some(a);
            },
            None => {},
        }
        match description {
            Some(d) => {
                self.metadata.description = Some(d);
            },
            None => {},
        }
        self.metadata.modified_at = now_utc_string();
    }

    /// The timeline, for editing.
    pub fn timeline_mut(&mut self) -> (r: &mut Timeline)
        ensures
            *r == old(self).timeline,
            *final(self) == (Project { timeline: *final(r), ..*old(self) }),
    {
        &mut self.timeline
    }

    /// The timeline, for reading.
    pub fn timeline(&self) -> (r: &Timeline)
        ensures
            r == self.timeline,
    {
        &self.timeline
    }

    /// A project whose values lie in range: a nonblank name, tempo and
    /// volume within bounds, and every segment with an in-range tempo and a
    /// loop count of at least one.
    pub open spec fn valid(self) -> bool {
        &&& !is_blank(self.metadata.name@)
        &&& 60_000 <= self.global_bpm <= 300_000
        &&& self.global_volume <= 2000
        &&& forall|i: int|
            0 <= i < self.timeline.segments@.len() ==> 60_000 <= (#[trigger] self.timeline.segments@[i]).bpm <= 300_000
                && self.timeline.segments@[i].loop_count >= 1
    }

    /// Accepts exactly the projects `valid` allows: name, then tempo, then
    /// volume, then the segments in order.
    #[verifier::loop_isolation(false)]
    pub fn validate(&self) -> (r: Result<(), ProjectError>)
        ensures
            r is Ok <==> self.valid(),
            r == Err::<(), ProjectError>(ProjectError::EmptyName) <==> is_blank(
                self.metadata.name@,
            ),
            r == Err::<(), ProjectError>(ProjectError::BpmOutOfRange) <==> (!is_blank(
                self.metadata.name@,
            ) && !(60_000 <= self.global_bpm <= 300_000)),
            r == Err::<(), ProjectError>(ProjectError::VolumeOutOfRange) <==> (!is_blank(
                self.metadata.name@,
            ) && 60_000 <= self.global_bpm <= 300_000 && self.global_volume > 2000),
            (!is_blank(self.metadata.name@) && 60_000 <= self.global_bpm <= 300_000
                && self.global_volume <= 2000) ==> r == match segment_check(
                self.timeline.segments@,
                0,
            ) {
                Some(e) => Err::<(), ProjectError>(e),
                None => Ok::<(), ProjectError>(()),
            },
    {
        if crate::text::is_blank_str(self.metadata.name.as_str()) {
            return Err(ProjectError::EmptyName);
        }
        if self.global_bpm < 60_000 || self.global_bpm > 300_000 {
            return Err(ProjectError::BpmOutOfRange);
        }
        if self.global_volume > 2000 {
            return Err(ProjectError::VolumeOutOfRange);
        }
        let mut i: usize = 0;
        while i < self.timeline.segments.len()
            invariant
                i <= self.timeline.segments@.len(),
                forall|j: int|
                    0 <= j < i ==> 60_000 <= (#[trigger] self.timeline.segments@[j]).bpm
                        <= 300_000 && self.timeline.segments@[j].loop_count >= 1,
                segment_check(self.timeline.segments@, 0) == segment_check(
                    self.timeline.segments@,
                    i as int,
                ),
            decreases self.timeline.segments@.len() - i,
        {
            let seg_bpm = self.timeline.segments[i].bpm;
            if seg_bpm < 60_000 || seg_bpm > 300_000 {
                return Err(ProjectError::SegmentBpmOutOfRange);
            }
            if self.timeline.segments[i].loop_count == 0 {
                return Err(ProjectError::SegmentLoopCountZero);
            }
            i = i + 1;
        }
        Ok(())
    }
}

} // verus!
