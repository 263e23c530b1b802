//! The 3D player preview: which render it fetches for a player, how large it
//! is laid out, and what it shows while the render is on its way.

use vstd::prelude::*;

verus! {

/// A player preview with the size of each side.
#[derive(Clone, Debug, PartialEq)]
pub struct PlayerModel<S> {
    pub uuid: String,
    pub width: S,
    pub height: S,
}

impl<S: Clone> PlayerModel<S> {
    /// A preview of the player `uuid` whose sides both take `fill`, the size
    /// that fills the parent.
    pub fn new(uuid: String, fill: S) -> (m: Self)
        ensures
            m.uuid == uuid,
            cloned(fill, m.width),
            m.height == fill,
    {
        PlayerModel { uuid, width: fill.clone(), height: fill }
    }
}

impl<S> PlayerModel<S> {
    /// The preview with its width set.
    pub fn width(self, width: S) -> (m: Self)
        ensures
            m.uuid == self.uuid,
            m.width == width,
            m.height == self.height,
    {
        PlayerModel { width, ..self }
    }

    /// The preview with its height set.
    pub fn height(self, height: S) -> (m: Self)
        ensures
            m.uuid == self.uuid,
            m.width == self.width,
            m.height == height,
    {
        PlayerModel { height, ..self }
    }
}

/// Address of the full-body render of the player `uuid`.
pub fn render_url(uuid: &str) -> (url: String)
    ensures
        url@ == "https://visage.surgeplay.com/full/512/"@ + uuid@,
{
    let mut url = String::from_str("https://visage.surgeplay.com/full/512/");
    url.append(uuid);
    url
}

/// What the preview shows in place of the render, given how many bytes of it
/// arrived (none yet, or a failed fetch that left zero bytes) and whether they
/// decoded to an image; `None` when the image itself is shown.
pub open spec fn caption_spec(fetched_len: Option<usize>, decoded: bool) -> Option<Seq<char>> {
    match fetched_len {
        None => Some("Loading 3D Model..."@),
        Some(n) => if n == 0 {
            Some("Error Loading 3D Model"@)
        } else if decoded {
            None
        } else {
            Some("Loading 3D..."@)
        },
    }
}

/// What the preview shows in place of the render, if anything.
pub fn model_caption(fetched_len: Option<usize>, decoded: bool) -> (c: Option<&'static str>)
    ensures
        match c {
            Some(s) => caption_spec(fetched_len, decoded) == Some(s@),
            None => caption_spec(fetched_len, decoded) is None,
        },
{
    match fetched_len {
        None => Some("Loading 3D Model..."),
        Some(n) => if n == 0 {
            Some("Error Loading 3D Model")
        } else if decoded {
            None
        } else {
            Some("Loading 3D...")
        },
    }
}

} // verus!
