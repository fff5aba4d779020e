//! Voices that the host has triggered.

use std::collections::HashMap;

use vstd::prelude::*;

verus! {

/// A voice, known by the tag that the host gave it.
#[derive(Clone, Copy, Debug, PartialEq, Eq, Structural)]
pub struct Voice {
    pub tag: isize,
}

impl Voice {
    /// A voice with the given tag.
    pub fn new(tag: isize) -> (voice: Voice)
        ensures
            voice.tag == tag,
    {
        Voice { tag }
    }

    /// The tag of the voice.
    pub fn tag(&self) -> (tag: isize)
        ensures
            tag == self.tag,
    {
        self.tag
    }
}

/// The voices that sound, by tag. What is held for a voice is up to the user of the table.
#[derive(Debug)]
pub struct Voices<V> {
    voices: HashMap<isize, V>,
}

impl<V> View for Voices<V> {
    type V = Map<isize, V>;

    closed spec fn view(&self) -> Map<isize, V> {
        self.voices@
    }
}

impl<V> Voices<V> {
    /// No voices.
    pub fn new() -> (voices: Voices<V>)
        ensures
            voices@ == Map::<isize, V>::empty(),
    {
        Voices { voices: HashMap::new() }
    }

    /// Adds a voice and hands it out. It takes the place of one with the same tag.
    pub fn trigger(&mut self, tag: isize, voice: V) -> (triggered: &mut V)
        ensures
            *triggered == voice,
            final(self)@ == old(self)@.insert(tag, *final(triggered)),
            final(self)@.dom().contains(tag) && final(self)@[tag] == *final(triggered),
            forall|other: isize|
                other != tag && old(self)@.dom().contains(other) ==> final(self)@.dom().contains(
                    other,
                ) && #[trigger] final(self)@[other] == old(self)@[other],
    {
        broadcast use vstd::std_specs::hash::group_hash_axioms;

        self.voices.entry(tag).insert_entry(voice).into_mut()
    }

    /// Removes the voice with the tag, if there is one.
    pub fn release(&mut self, tag: isize)
        ensures
            final(self)@ == old(self)@.remove(tag),
            !final(self)@.dom().contains(tag),
            forall|other: isize|
                other != tag && old(self)@.dom().contains(other) ==> final(self)@.dom().contains(
                    other,
                ) && #[trigger] final(self)@[other] == old(self)@[other],
    {
        broadcast use vstd::std_specs::hash::group_hash_axioms;

        self.voices.remove(&tag);
    }

    /// Removes the voice with the tag, if there is one.
    pub fn kill(&mut self, tag: isize)
        ensures
            final(self)@ == old(self)@.remove(tag),
            !final(self)@.dom().contains(tag),
            forall|other: isize|
                other != tag && old(self)@.dom().contains(other) ==> final(self)@.dom().contains(
                    other,
                ) && #[trigger] final(self)@[other] == old(self)@[other],
    {
        broadcast use vstd::std_specs::hash::group_hash_axioms;

        self.voices.remove(&tag);
    }

    /// Whether there is a voice with the tag.
    pub fn sounds(&self, tag: isize) -> (sounds: bool)
        ensures
            sounds == self@.dom().contains(tag),
    {
        broadcast use vstd::std_specs::hash::group_hash_axioms;

        self.voices.contains_key(&tag)
    }
}

/// A voice that was triggered and then released or killed is gone, and the other voices are as
/// before.
pub proof fn removal_undoes_trigger<V>(voices: Map<isize, V>, tag: isize, voice: V)
    ensures
        voices.insert(tag, voice).remove(tag) == voices.remove(tag),
        !voices.dom().contains(tag) ==> voices.insert(tag, voice).remove(tag) == voices,
{
    assert(voices.insert(tag, voice).remove(tag) == voices.remove(tag));
    if !voices.dom().contains(tag) {
        assert(voices.insert(tag, voice).remove(tag) == voices);
    }
}

/// Whether every voice is kept under its own tag, where `tag_of` says which tag a voice has.
pub open spec fn under_their_tags<V>(voices: Map<isize, V>, tag_of: spec_fn(V) -> isize) -> bool {
    forall|tag: isize| voices.dom().contains(tag) ==> tag_of(#[trigger] voices[tag]) == tag
}

/// Voices that are triggered under their own tag are kept under it, whatever else is triggered,
/// released or killed.
pub proof fn voices_stay_under_their_tags<V>(
    voices: Map<isize, V>,
    tag_of: spec_fn(V) -> isize,
    tag: isize,
    voice: V,
)
    requires
        under_their_tags(voices, tag_of),
        tag_of(voice) == tag,
    ensures
        under_their_tags(Map::<isize, V>::empty(), tag_of),
        under_their_tags(voices.insert(tag, voice), tag_of),
        under_their_tags(voices.remove(tag), tag_of),
{
    assert forall|t: isize| voices.insert(tag, voice).dom().contains(t) implies tag_of(
        #[trigger] voices.insert(tag, voice)[t],
    ) == t by {
        if t != tag {
            assert(tag_of(voices[t]) == t);
        }
    }
    assert forall|t: isize| voices.remove(tag).dom().contains(t) implies tag_of(
        #[trigger] voices.remove(tag)[t],
    ) == t by {
        assert(tag_of(voices[t]) == t);
    }
}

} // verus!
