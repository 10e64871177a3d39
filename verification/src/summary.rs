//! What the editor shows of a project's clips and characters.

use vstd::prelude::*;

verus! {

/// Dialogue-specific authoring fields of a dialogue clip.
#[derive(Clone, Debug, PartialEq, Eq)]
pub struct DialogueClipSummary {
    pub character: String,
    pub text: String,
    pub audio: Option<String>,
    pub expression: Option<String>,
    pub lip_sync_cue_count: usize,
}

#[derive(Clone, Debug, PartialEq, Eq)]
pub struct CharacterSummary {
    pub id: String,
    pub name: String,
    pub default_expression: Option<String>,
    pub expressions: Vec<String>,
    pub lip_sync: Option<LipSyncSummary>,
}

/// The portrait shown for each mouth shape.
#[derive(Clone, Debug, PartialEq, Eq)]
pub struct LipSyncSummary {
    pub a: String,
    pub i: String,
    pub u: String,
    pub e: String,
    pub o: String,
    pub closed: Option<String>,
}

#[derive(Clone, Copy, Debug, PartialEq, Eq, Structural)]
pub enum ClipKind {
    Video,
    Audio,
    Image,
    Text,
    Dialogue,
    Component,
}

/// The name the inspector shows for a kind of clip.
pub open spec fn spec_clip_kind_label(kind: ClipKind) -> Seq<char> {
    match kind {
        ClipKind::Video => "Video"@,
        ClipKind::Audio => "Audio"@,
        ClipKind::Image => "Image"@,
        ClipKind::Text => "Text"@,
        ClipKind::Dialogue => "Dialogue"@,
        ClipKind::Component => "Component"@,
    }
}

pub fn clip_kind_label(kind: ClipKind) -> (r: &'static str)
    ensures
        r@ == spec_clip_kind_label(kind),
{
    match kind {
        ClipKind::Video => "Video",
        ClipKind::Audio => "Audio",
        ClipKind::Image => "Image",
        ClipKind::Text => "Text",
        ClipKind::Dialogue => "Dialogue",
        ClipKind::Component => "Component",
    }
}

/// The mouth shape a lip-sync cue asks for.
#[derive(Clone, Copy, Debug, PartialEq, Eq, Structural)]
pub enum MouthShape {
    Closed,
    A,
    I,
    U,
    E,
    O,
}

/// The portrait asset drawn for a mouth shape; a closed mouth draws one
/// only when the character has one.
pub fn mouth_asset(shape: MouthShape, lip_sync: &LipSyncSummary) -> (r: Option<&String>)
    ensures
        r == (match shape {
            MouthShape::Closed => match &lip_sync.closed {
                Some(closed) => Some(closed),
                None => None,
            },
            MouthShape::A => Some(&lip_sync.a),
            MouthShape::I => Some(&lip_sync.i),
            MouthShape::U => Some(&lip_sync.u),
            MouthShape::E => Some(&lip_sync.e),
            MouthShape::O => Some(&lip_sync.o),
        }),
{
    match shape {
        MouthShape::Closed => lip_sync.closed.as_ref(),
        MouthShape::A => Some(&lip_sync.a),
        MouthShape::I => Some(&lip_sync.i),
        MouthShape::U => Some(&lip_sync.u),
        MouthShape::E => Some(&lip_sync.e),
        MouthShape::O => Some(&lip_sync.o),
    }
}

} // verus!
