//! The backdrop: when one cover dissolves into the next, and the panel of a track without one.

use vstd::prelude::*;

use crate::text;
use crate::text::opt_is;

verus! {

/// Where a hash starts.
pub const HASH_BASIS: u64 = 0xcbf2_9ce4_8422_2325;

/// What a hash is multiplied by for each byte.
pub const HASH_PRIME: u64 = 0x0000_0100_0000_01b3;

/// FNV-1a over bytes.
pub open spec fn hash_of(bytes: Seq<u8>) -> u64
    decreases bytes.len(),
{
    if bytes.len() == 0 {
        HASH_BASIS
    } else {
        (hash_of(bytes.drop_last()) ^ (bytes.last() as u64)).wrapping_mul(HASH_PRIME)
    }
}

/// FNV-1a. The value decides what colour an album is, so it has to be one that never changes.
pub fn hash(bytes: &[u8]) -> (r: u64)
    ensures
        r == hash_of(bytes@),
{
    let mut r: u64 = HASH_BASIS;
    let mut i: usize = 0;
    while i < bytes.len()
        invariant
            i <= bytes@.len(),
            r == hash_of(bytes@.take(i as int)),
        decreases bytes.len() - i,
    {
        r = (r ^ bytes[i] as u64).wrapping_mul(HASH_PRIME);
        i += 1;
        proof {
            assert(bytes@.take(i as int).drop_last() =~= bytes@.take(i - 1));
        }
    }
    assert(bytes@.take(i as int) =~= bytes@);
    r
}

/// The hash of text.
pub open spec fn seed_of(s: Seq<char>) -> u64 {
    hash_of(vstd::utf8::encode_utf8(s))
}

/// The hue of the panel that says `text`, in degrees.
pub fn panel_hue(text: &str) -> (r: u64)
    ensures
        r == seed_of(text@) % 360,
        r < 360,
{
    hash(text.as_bytes()) % 360
}

/// Which of `count` bundled fonts the panel that says `text` uses. None where there is none.
pub fn panel_font(text: &str, count: usize) -> (r: Option<usize>)
    ensures
        r == (if count == 0 {
            None
        } else {
            Some((seed_of(text@) % count as u64) as usize)
        }),
        r is Some ==> r.unwrap() < count,
{
    if count == 0 {
        None
    } else {
        Some((hash(text.as_bytes()) % count as u64) as usize)
    }
}

/// How a cover is replaced.
#[derive(Debug, Clone, Copy, PartialEq, Eq, Structural)]
pub enum TextureChange {
    /// The same one: nothing to see.
    Same,
    /// At once: half a fade against an empty backdrop reads as a flicker.
    Land,
    /// By dissolving one into the other.
    Fade,
}

/// The backdrop. Covers are known by number.
#[derive(Debug)]
pub struct ArtBackdrop {
    texture: Option<u64>,
    /// The cover that is being faded out.
    outgoing: Option<u64>,
    placeholder: Option<String>,
    reduce_motion: bool,
    mapped: bool,
    drifting: bool,
}

/// What an [`ArtBackdrop`] knows.
#[verifier::ext_equal]
pub struct ArtBackdropView {
    pub texture: Option<u64>,
    pub outgoing: Option<u64>,
    pub placeholder: Option<Seq<char>>,
    pub reduce_motion: bool,
    pub mapped: bool,
    pub drifting: bool,
}

impl View for ArtBackdrop {
    type V = ArtBackdropView;

    closed spec fn view(&self) -> ArtBackdropView {
        ArtBackdropView {
            texture: self.texture,
            outgoing: self.outgoing,
            placeholder: text::text_opt(self.placeholder),
            reduce_motion: self.reduce_motion,
            mapped: self.mapped,
            drifting: self.drifting,
        }
    }
}

impl ArtBackdropView {
    /// Whether the panel may move: it is on screen, there is one, and movement is wanted.
    pub open spec fn may_drift(self) -> bool {
        self.mapped && self.placeholder is Some && !self.reduce_motion
    }

    /// How another cover takes the place of this one.
    pub open spec fn change_to(self, texture: Option<u64>) -> TextureChange {
        if self.texture == texture {
            TextureChange::Same
        } else if self.texture is Some && texture is Some {
            TextureChange::Fade
        } else {
            TextureChange::Land
        }
    }

    /// With another cover.
    pub open spec fn with_texture(self, texture: Option<u64>) -> ArtBackdropView {
        match self.change_to(texture) {
            TextureChange::Same => self,
            TextureChange::Fade => ArtBackdropView { texture, outgoing: self.texture, ..self },
            TextureChange::Land => ArtBackdropView { texture, outgoing: None, ..self },
        }
    }

    /// Moving, if it may.
    pub open spec fn started(self) -> ArtBackdropView {
        ArtBackdropView { drifting: self.drifting || self.may_drift(), ..self }
    }

    /// With other text on the panel.
    pub open spec fn with_placeholder(self, text: Option<Seq<char>>) -> ArtBackdropView {
        if self.placeholder == text {
            self
        } else if text is Some {
            ArtBackdropView { placeholder: text, ..self }.started()
        } else {
            ArtBackdropView { placeholder: text, drifting: false, ..self }
        }
    }

    /// With movement wanted or not.
    pub open spec fn with_reduce_motion(self, reduce: bool) -> ArtBackdropView {
        if self.reduce_motion == reduce {
            self
        } else if reduce {
            ArtBackdropView { reduce_motion: true, drifting: false, ..self }
        } else {
            ArtBackdropView { reduce_motion: false, ..self }.started()
        }
    }
}

impl ArtBackdrop {
    /// The panel moves only where it may.
    pub open spec fn wf(&self) -> bool {
        self@.drifting ==> self@.may_drift()
    }

    pub fn new() -> (r: Self)
        ensures
            r.wf(),
            r@ == (ArtBackdropView {
                texture: None,
                outgoing: None,
                placeholder: None,
                reduce_motion: false,
                mapped: false,
                drifting: false,
            }),
    {
        ArtBackdrop {
            texture: None,
            outgoing: None,
            placeholder: None,
            reduce_motion: false,
            mapped: false,
            drifting: false,
        }
    }

    /// Replaces the cover, dissolving from the current one where there is something to dissolve
    /// from and to.
    pub fn set_texture(&mut self, texture: Option<u64>) -> (r: TextureChange)
        requires
            old(self).wf(),
        ensures
            final(self).wf(),
            r == old(self)@.change_to(texture),
            final(self)@ == old(self)@.with_texture(texture),
    {
        if self.texture == texture {
            return TextureChange::Same;
        }
        let fade = self.texture.is_some() && texture.is_some();
        if fade {
            self.outgoing = self.texture;
            self.texture = texture;
            TextureChange::Fade
        } else {
            self.outgoing = None;
            self.texture = texture;
            TextureChange::Land
        }
    }

    /// A fade is over: the old cover is not needed any more.
    pub fn fade_done(&mut self)
        requires
            old(self).wf(),
        ensures
            final(self).wf(),
            final(self)@ == (ArtBackdropView { outgoing: None, ..old(self)@ }),
    {
        self.outgoing = None;
    }

    /// Whether the panel is what is drawn: there is no cover at all.
    pub fn shows_panel(&self) -> (r: bool)
        ensures
            r == (self@.texture is None && self@.outgoing is None && self@.placeholder is Some),
    {
        self.texture.is_none() && self.outgoing.is_none() && self.placeholder.is_some()
    }

    fn start_drift(&mut self)
        ensures
            final(self)@ == old(self)@.started(),
    {
        if self.reduce_motion || self.placeholder.is_none() || !self.mapped {
            return;
        }
        self.drifting = true;
    }

    /// Text for the panel of a track without a cover. Kept even while a cover is showing.
    pub fn set_placeholder(&mut self, text: Option<String>)
        requires
            old(self).wf(),
        ensures
            final(self).wf(),
            final(self)@ == old(self)@.with_placeholder(text::text_opt(text)),
    {
        let same = match &text {
            Some(t) => opt_is(&self.placeholder, t.as_str()),
            None => self.placeholder.is_none(),
        };
        if same {
            return;
        }
        self.placeholder = text;
        if self.placeholder.is_some() {
            self.start_drift();
        } else {
            self.drifting = false;
        }
    }

    /// Holds the panel still, or lets it move again. It is drawn either way.
    pub fn set_reduce_motion(&mut self, reduce: bool)
        requires
            old(self).wf(),
        ensures
            final(self).wf(),
            final(self)@ == old(self)@.with_reduce_motion(reduce),
    {
        if self.reduce_motion == reduce {
            return;
        }
        self.reduce_motion = reduce;
        if reduce {
            self.drifting = false;
        } else {
            self.start_drift();
        }
    }

    /// The backdrop came on screen, or left it. A hidden popup costs nothing.
    pub fn set_mapped(&mut self, mapped: bool)
        requires
            old(self).wf(),
        ensures
            final(self).wf(),
            final(self)@ == (if mapped {
                (ArtBackdropView { mapped: true, ..old(self)@ }).started()
            } else {
                ArtBackdropView { mapped: false, drifting: false, ..old(self)@ }
            }),
    {
        self.mapped = mapped;
        if mapped {
            self.start_drift();
        } else {
            self.drifting = false;
        }
    }

    /// Whether the panel moves.
    pub fn is_drifting(&self) -> (r: bool)
        ensures
            r == self@.drifting,
    {
        self.drifting
    }
}

/// The seed takes in one byte after the other: each is mixed into what was there, and the result is
/// multiplied by the prime of the hash.
pub proof fn law_the_seed_takes_in_every_byte(bytes: Seq<u8>, b: u8)
    ensures
        hash_of(Seq::empty()) == 0xcbf2_9ce4_8422_2325u64,
        hash_of(bytes.push(b)) as int == ((hash_of(bytes) ^ (b as u64)) * 0x0000_0100_0000_01b3)
            % 0x1_0000_0000_0000_0000,
{
    assert(bytes.push(b).drop_last() =~= bytes);
}

/// A cover fades into another and lands where there was none or comes none; one that is there
/// already changes nothing.
pub proof fn law_a_cover_fades_into_another(backdrop: ArtBackdropView, texture: Option<u64>)
    ensures
        texture == backdrop.texture ==> backdrop.with_texture(texture) == backdrop,
        backdrop.with_texture(texture).texture == texture,
        texture != backdrop.texture && texture is Some && backdrop.texture is Some
            ==> backdrop.with_texture(texture).outgoing == backdrop.texture,
        texture != backdrop.texture && !(texture is Some && backdrop.texture is Some)
            ==> backdrop.with_texture(texture).outgoing is None,
        backdrop.with_texture(texture).placeholder == backdrop.placeholder,
        backdrop.with_texture(texture).drifting == backdrop.drifting,
        backdrop.with_texture(texture).mapped == backdrop.mapped,
        backdrop.with_texture(texture).reduce_motion == backdrop.reduce_motion,
{
}

/// A placeholder drifts while it is on screen and motion is wanted, and nothing drifts without
/// one. Reducing the motion stops it, and wanting it again starts it.
pub proof fn law_a_placeholder_drifts(
    backdrop: ArtBackdropView,
    text: Option<Seq<char>>,
    reduce: bool,
)
    requires
        backdrop.drifting == (backdrop.mapped && backdrop.placeholder is Some
            && !backdrop.reduce_motion),
    ensures
        backdrop.with_placeholder(text).placeholder == text,
        backdrop.with_placeholder(text).drifting == (backdrop.mapped && text is Some
            && !backdrop.reduce_motion),
        backdrop.with_placeholder(text).texture == backdrop.texture,
        backdrop.with_placeholder(text).mapped == backdrop.mapped,
        backdrop.with_placeholder(text).reduce_motion == backdrop.reduce_motion,
        backdrop.with_reduce_motion(reduce).reduce_motion == reduce,
        backdrop.with_reduce_motion(reduce).drifting == (backdrop.mapped
            && backdrop.placeholder is Some && !reduce),
        backdrop.with_reduce_motion(reduce).placeholder == backdrop.placeholder,
        backdrop.with_reduce_motion(reduce).texture == backdrop.texture,
        backdrop.with_reduce_motion(reduce).mapped == backdrop.mapped,
{
}

} // verus!
