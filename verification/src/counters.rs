//! Progress counters drained by the telemetry reporter.
//!
//! Each counter is monotonic between drains and is reset to zero when read.

use vstd::prelude::*;
use crate::FileType;

verus! {

/// A single monotonic counter with a "read and reset" drain operation.
pub struct CommonCounterState {
    count: usize,
}

impl CommonCounterState {
    pub closed spec fn spec_count(&self) -> nat {
        self.count as nat
    }

    pub fn new() -> (r: Self)
        ensures
            r.spec_count() == 0,
    {
        Self { count: 0 }
    }

    pub fn increment(&mut self)
        requires
            old(self).spec_count() < usize::MAX,
        ensures
            final(self).spec_count() == old(self).spec_count() + 1,
    {
        self.count = self.count + 1;
    }

    pub fn get_and_reset(&mut self) -> (r: usize)
        ensures
            r == old(self).spec_count(),
            final(self).spec_count() == 0,
    {
        let r = self.count;
        self.count = 0;
        r
    }
}

/// One counter per content category, drained as one snapshot.
pub struct FilterCounterState {
    background_video: usize,
    background_image: usize,
    storyboard: usize,
    skin_element: usize,
    hitsound: usize,
    other: usize,
}

/// A drained snapshot of the per-category counters.
#[derive(Debug, Clone, Copy, PartialEq, Eq, Structural)]
pub struct FilterCounts {
    pub background_video: usize,
    pub background_image: usize,
    pub storyboard: usize,
    pub skin_element: usize,
    pub hitsound: usize,
    pub other: usize,
}

impl FilterCounterState {
    pub closed spec fn spec_counter(&self, file_type: FileType) -> nat {
        match file_type {
            FileType::BackgroundVideo => self.background_video as nat,
            FileType::BackgroundImage => self.background_image as nat,
            FileType::Storyboard => self.storyboard as nat,
            FileType::SkinElement => self.skin_element as nat,
            FileType::Hitsound => self.hitsound as nat,
            FileType::Other => self.other as nat,
        }
    }

    pub fn new() -> (r: Self)
        ensures
            forall|t: FileType| r.spec_counter(t) == 0,
    {
        Self {
            background_video: 0,
            background_image: 0,
            storyboard: 0,
            skin_element: 0,
            hitsound: 0,
            other: 0,
        }
    }

    pub fn get_counter(&self, file_type: FileType) -> (r: usize)
        ensures
            r == self.spec_counter(file_type),
    {
        match file_type {
            FileType::BackgroundVideo => self.background_video,
            FileType::BackgroundImage => self.background_image,
            FileType::Storyboard => self.storyboard,
            FileType::SkinElement => self.skin_element,
            FileType::Hitsound => self.hitsound,
            FileType::Other => self.other,
        }
    }

    pub fn increment(&mut self, file_type: FileType)
        requires
            old(self).spec_counter(file_type) < usize::MAX,
        ensures
            final(self).spec_counter(file_type) == old(self).spec_counter(file_type) + 1,
            forall|t: FileType| t != file_type
                ==> final(self).spec_counter(t) == old(self).spec_counter(t),
    {
        match file_type {
            FileType::BackgroundVideo => {
                self.background_video = self.background_video + 1;
            },
            FileType::BackgroundImage => {
                self.background_image = self.background_image + 1;
            },
            FileType::Storyboard => {
                self.storyboard = self.storyboard + 1;
            },
            FileType::SkinElement => {
                self.skin_element = self.skin_element + 1;
            },
            FileType::Hitsound => {
                self.hitsound = self.hitsound + 1;
            },
            FileType::Other => {
                self.other = self.other + 1;
            },
        }
    }

    pub fn reset_counter(&mut self, file_type: FileType) -> (r: usize)
        ensures
            r == old(self).spec_counter(file_type),
            final(self).spec_counter(file_type) == 0,
            forall|t: FileType| t != file_type
                ==> final(self).spec_counter(t) == old(self).spec_counter(t),
    {
        let r = self.get_counter(file_type);
        match file_type {
            FileType::BackgroundVideo => {
                self.background_video = 0;
            },
            FileType::BackgroundImage => {
                self.background_image = 0;
            },
            FileType::Storyboard => {
                self.storyboard = 0;
            },
            FileType::SkinElement => {
                self.skin_element = 0;
            },
            FileType::Hitsound => {
                self.hitsound = 0;
            },
            FileType::Other => {
                self.other = 0;
            },
        }
        r
    }

    pub fn get_and_reset(&mut self) -> (r: FilterCounts)
        ensures
            r.background_video == old(self).spec_counter(FileType::BackgroundVideo),
            r.background_image == old(self).spec_counter(FileType::BackgroundImage),
            r.storyboard == old(self).spec_counter(FileType::Storyboard),
            r.skin_element == old(self).spec_counter(FileType::SkinElement),
            r.hitsound == old(self).spec_counter(FileType::Hitsound),
            r.other == old(self).spec_counter(FileType::Other),
            forall|t: FileType| final(self).spec_counter(t) == 0,
    {
        let r = FilterCounts {
            background_video: self.background_video,
            background_image: self.background_image,
            storyboard: self.storyboard,
            skin_element: self.skin_element,
            hitsound: self.hitsound,
            other: self.other,
        };
        self.background_video = 0;
        self.background_image = 0;
        self.storyboard = 0;
        self.skin_element = 0;
        self.hitsound = 0;
        self.other = 0;
        r
    }
}

} // verus!
