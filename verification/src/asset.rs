//! Assets: files attached to a catalog entry under a string key.

use vstd::prelude::*;

verus! {

/// A referenced file attached to an entry: its URI and optional
/// presentation metadata.
#[derive(Debug, Clone, PartialEq, Eq)]
pub struct Asset {
    /// URI of the asset; relative and absolute are both allowed.
    pub href: String,
    /// The displayed title for clients and users.
    pub title: Option<String>,
    /// A description of the asset.
    pub description: Option<String>,
    /// Media type of the asset.
    pub media_type: Option<String>,
    /// The semantic roles of the asset.
    pub roles: Option<Vec<AssetRole>>,
}

/// Common semantic roles for assets.
#[derive(Debug, Clone, PartialEq, Eq)]
pub enum AssetRole {
    /// A small true-color preview image.
    Thumbnail,
    /// A possibly larger view than the thumbnail.
    Overview,
    /// The data itself.
    Data,
    /// A metadata sidecar file describing the data.
    Metadata,
    /// A role outside the standard set.
    Custom(String),
}

impl Asset {
    /// A new asset with the required href and nothing else set.
    pub fn new(href: String) -> (r: Asset)
        ensures
            r.href == href,
            r.title is None,
            r.description is None,
            r.media_type is None,
            r.roles is None,
    {
        Asset { href, title: None, description: None, media_type: None, roles: None }
    }

    /// This asset with the title set.
    pub fn with_title(self, title: String) -> (r: Asset)
        ensures
            r == (Asset { title: Some(title), ..self }),
    {
        Asset { title: Some(title), ..self }
    }

    /// This asset with the description set.
    pub fn with_description(self, description: String) -> (r: Asset)
        ensures
            r == (Asset { description: Some(description), ..self }),
    {
        Asset { description: Some(description), ..self }
    }

    /// This asset with the media type set.
    pub fn with_type(self, media_type: String) -> (r: Asset)
        ensures
            r == (Asset { media_type: Some(media_type), ..self }),
    {
        Asset { media_type: Some(media_type), ..self }
    }

    /// This asset with the roles set.
    pub fn with_roles(self, roles: Vec<AssetRole>) -> (r: Asset)
        ensures
            r == (Asset { roles: Some(roles), ..self }),
    {
        Asset { roles: Some(roles), ..self }
    }

    /// Adds one role, starting the list when there was none.
    pub fn add_role(&mut self, role: AssetRole)
        ensures
            final(self).href == old(self).href,
            final(self).title == old(self).title,
            final(self).description == old(self).description,
            final(self).media_type == old(self).media_type,
            final(self).roles is Some,
            old(self).roles is Some ==> final(self).roles->Some_0@ == old(
                self,
            ).roles->Some_0@.push(role),
            old(self).roles is None ==> final(self).roles->Some_0@ == seq![role],
    {
        match self.roles.take() {
            Some(mut roles) => {
                roles.push(role);
                self.roles = Some(roles);
            },
            None => {
                let mut roles: Vec<AssetRole> = Vec::new();
                roles.push(role);
                proof {
                    assert(roles@ =~= seq![role]);
                }
                self.roles = Some(roles);
            },
        }
    }

    /// A thumbnail asset with its customary title, description, media type
    /// and role.
    pub fn thumbnail(href: String) -> (r: Asset)
        ensures
            r.href == href,
            r.title is Some && r.title->Some_0@ == "Thumbnail"@,
            r.description is Some && r.description->Some_0@ == "A thumbnail image of the item"@,
            r.media_type is Some && r.media_type->Some_0@ == "image/jpeg"@,
            r.roles is Some && r.roles->Some_0@ == seq![AssetRole::Thumbnail],
    {
        let mut roles: Vec<AssetRole> = Vec::new();
        roles.push(AssetRole::Thumbnail);
        proof {
            assert(roles@ =~= seq![AssetRole::Thumbnail]);
        }
        Asset {
            href,
            title: Some("Thumbnail".to_owned()),
            description: Some("A thumbnail image of the item".to_owned()),
            media_type: Some("image/jpeg".to_owned()),
            roles: Some(roles),
        }
    }

    /// A data asset with its customary title, description and role.
    pub fn data(href: String, media_type: String) -> (r: Asset)
        ensures
            r.href == href,
            r.title is Some && r.title->Some_0@ == "Data"@,
            r.description is Some && r.description->Some_0@ == "The main data file for this item"@,
            r.media_type == Some(media_type),
            r.roles is Some && r.roles->Some_0@ == seq![AssetRole::Data],
    {
        let mut roles: Vec<AssetRole> = Vec::new();
        roles.push(AssetRole::Data);
        proof {
            assert(roles@ =~= seq![AssetRole::Data]);
        }
        Asset {
            href,
            title: Some("Data".to_owned()),
            description: Some("The main data file for this item".to_owned()),
            media_type: Some(media_type),
            roles: Some(roles),
        }
    }

    /// An overview asset with its customary title, description, media type
    /// and role.
    pub fn overview(href: String) -> (r: Asset)
        ensures
            r.href == href,
            r.title is Some && r.title->Some_0@ == "Overview"@,
            r.description is Some && r.description->Some_0@ == "An overview image of the item"@,
            r.media_type is Some && r.media_type->Some_0@ == "image/png"@,
            r.roles is Some && r.roles->Some_0@ == seq![AssetRole::Overview],
    {
        let mut roles: Vec<AssetRole> = Vec::new();
        roles.push(AssetRole::Overview);
        proof {
            assert(roles@ =~= seq![AssetRole::Overview]);
        }
        Asset {
            href,
            title: Some("Overview".to_owned()),
            description: Some("An overview image of the item".to_owned()),
            media_type: Some("image/png".to_owned()),
            roles: Some(roles),
        }
    }

    /// A metadata asset with its customary title, description and role.
    pub fn metadata(href: String, media_type: String) -> (r: Asset)
        ensures
            r.href == href,
            r.title is Some && r.title->Some_0@ == "Metadata"@,
            r.description is Some && r.description->Some_0@
                == "Metadata file describing the data in this item"@,
            r.media_type == Some(media_type),
            r.roles is Some && r.roles->Some_0@ == seq![AssetRole::Metadata],
    {
        let mut roles: Vec<AssetRole> = Vec::new();
        roles.push(AssetRole::Metadata);
        proof {
            assert(roles@ =~= seq![AssetRole::Metadata]);
        }
        Asset {
            href,
            title: Some("Metadata".to_owned()),
            description: Some("Metadata file describing the data in this item".to_owned()),
            media_type: Some(media_type),
            roles: Some(roles),
        }
    }
}

} // verus!
