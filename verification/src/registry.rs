//! Surfaces kept by name, for a host that shows each component on a surface of its own.
use vstd::prelude::*;
use crate::graphics::Rect;
use crate::surface::{Surface, SurfaceFlags, SurfaceView};

verus! {

/// The surfaces of the host, each under the name of the component that paints on it.
///
/// A `hashbrown::HashMap` from names to surfaces. Verus does not look inside: what the map
/// holds is known only as [`entries`], and only through the functions below.
#[verifier::external_body]
pub struct SurfacesMap {
    map: hashbrown::HashMap<String, Surface>,
}

/// What `map` holds: for each name in it, the surface kept under that name.
pub uninterp spec fn entries(map: SurfacesMap) -> Map<Seq<char>, SurfaceView>;

/// A registry without surfaces.
pub open spec fn nothing() -> Map<Seq<char>, SurfaceView> {
    Map::empty()
}

impl View for SurfacesMap {
    type V = Map<Seq<char>, SurfaceView>;

    open spec fn view(&self) -> Map<Seq<char>, SurfaceView> {
        entries(*self)
    }
}

/// `hashbrown::HashMap::new`: a map that holds nothing.
#[verifier::external_body]
fn map_new() -> (map: SurfacesMap)
    ensures
        entries(map) == nothing(),
{
    SurfacesMap { map: hashbrown::HashMap::new() }
}

/// `hashbrown::HashMap::contains_key`: whether the map holds a surface under `id`. Two names
/// are the same key when they are the same text.
#[verifier::external_body]
fn map_contains_key(map: &SurfacesMap, id: &String) -> (found: bool)
    ensures
        found == entries(*map).contains_key(id@),
{
    map.map.contains_key(id)
}

/// `hashbrown::HashMap::get` on a name that the map holds: the surface kept under it.
#[verifier::external_body]
fn map_get<'a>(map: &'a SurfacesMap, id: &String) -> (surface: &'a Surface)
    requires
        entries(*map).contains_key(id@),
    ensures
        surface@ == entries(*map)[id@],
{
    map.map.get(id).unwrap()
}

/// `hashbrown::HashMap::get_mut` on a name that the map holds: the surface kept under it,
/// to be changed in place. Whatever it is changed to is what the map holds under that name
/// afterwards; nothing else in the map changes.
#[verifier::external_body]
fn map_get_mut<'a>(map: &'a mut SurfacesMap, id: &String) -> (surface: &'a mut Surface)
    requires
        entries(*old(map)).contains_key(id@),
    ensures
        surface@ == entries(*old(map))[id@],
        entries(*final(map)) == entries(*old(map)).insert(id@, final(surface)@),
{
    map.map.get_mut(id).unwrap()
}

/// `hashbrown::HashMap::insert_unique_unchecked` with a name that the map does not hold yet
/// (with one that it holds, the crate promises nothing): the map then holds `surface` under
/// `id`, and the result is that surface, to be changed in place.
#[verifier::external_body]
fn map_insert_unique<'a>(map: &'a mut SurfacesMap, id: String, surface: Surface) -> (kept: &'a mut Surface)
    requires
        !entries(*old(map)).contains_key(id@),
    ensures
        kept@ == surface@,
        entries(*final(map)) == entries(*old(map)).insert(id@, final(kept)@),
{
    map.map.insert_unique_unchecked(id, surface).1
}

impl SurfacesMap {
    /// A registry without surfaces.
    pub fn new() -> (map: SurfacesMap)
        ensures
            map@ == nothing(),
    {
        map_new()
    }

    /// Whether a surface is kept under `id`.
    pub fn contains(&self, id: &String) -> (found: bool)
        ensures
            found == self@.contains_key(id@),
    {
        map_contains_key(self, id)
    }
}

/// The surface that [`surface_by_id_mut`] hands out where `before` is what the registry
/// holds: the one kept under `id` if it covers `area`, that one wiped and made to cover
/// `area` if it covers another area, and a blank one with `flags` if there is none yet.
pub open spec fn fitted(
    before: Map<Seq<char>, SurfaceView>,
    id: Seq<char>,
    area: Rect,
    flags: SurfaceFlags,
) -> SurfaceView {
    if before.contains_key(id) {
        if before[id].area != area {
            SurfaceView::blank(area, before[id].flags)
        } else {
            before[id]
        }
    } else {
        SurfaceView::blank(area, flags)
    }
}

/// The surface that [`surface_by_id`] hands out where `before` is what the registry holds:
/// the one kept under `id`, as it is, and a blank one over `area` with `flags` if there is
/// none yet.
pub open spec fn found_or_blank(
    before: Map<Seq<char>, SurfaceView>,
    id: Seq<char>,
    area: Rect,
    flags: SurfaceFlags,
) -> SurfaceView {
    if before.contains_key(id) {
        before[id]
    } else {
        SurfaceView::blank(area, flags)
    }
}

/// The surface kept under `id`, ready to be painted on over `area`.
///
/// A surface that covers another area is made to cover `area` and wiped first. Where no
/// surface is kept under `id`, a blank one with `spatial_flags` is put into the registry.
/// Painting on the result paints on the surface in the registry.
pub fn surface_by_id_mut<'a>(
    id: &String,
    area: Rect,
    spatial_flags: SurfaceFlags,
    surfaces: &'a mut SurfacesMap,
) -> (surface: &'a mut Surface)
    ensures
        surface@ == fitted(old(surfaces)@, id@, area, spatial_flags),
        final(surfaces)@ == old(surfaces)@.insert(id@, final(surface)@),
{
    if map_contains_key(surfaces, id) {
        let surface = map_get_mut(surfaces, id);
        if surface.area != area {
            surface.resize(area);
            surface.reset();
        }
        surface
    } else {
        let new_surface = Surface::empty_with_spatial(area, spatial_flags);
        map_insert_unique(surfaces, id.clone(), new_surface)
    }
}

/// The surface kept under `id`, to be read.
///
/// Where no surface is kept under `id`, a blank one over `area` with `spatial_flags` is put
/// into the registry; a surface that is there is handed out as it is, whatever it covers.
pub fn surface_by_id<'a>(
    id: &String,
    area: Rect,
    spatial_flags: SurfaceFlags,
    surfaces: &'a mut SurfacesMap,
) -> (surface: &'a Surface)
    ensures
        surface@ == found_or_blank(old(surfaces)@, id@, area, spatial_flags),
        final(surfaces)@ == old(surfaces)@.insert(id@, surface@),
{
    if map_contains_key(surfaces, id) {
        assert(surfaces@.insert(id@, surfaces@[id@]) =~= surfaces@);
        map_get(surfaces, id)
    } else {
        let new_surface = Surface::empty_with_spatial(area, spatial_flags);
        map_insert_unique(surfaces, id.clone(), new_surface)
    }
}

} // verus!
