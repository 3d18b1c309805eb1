use vstd::prelude::*;
use crate::picture::Picture;

verus! {

/// A post of the feed with its photo, ready to be placed.
#[derive(Debug)]
pub struct InstaPost {
    post_id: String,
    user_name: String,
    image: Picture,
}

/// Identifier and author of a placed post.
#[derive(Debug, Clone)]
pub struct InstaPostInfo {
    pub post_id: String,
    pub user_name: String,
}

impl InstaPost {
    /// The identifier the feed gave the post.
    pub closed spec fn id(&self) -> Seq<char> {
        self.post_id@
    }

    /// The handle of the post's author.
    pub closed spec fn user(&self) -> Seq<char> {
        self.user_name@
    }

    /// The photo, fitted to piece size.
    pub closed spec fn image(&self) -> Picture {
        self.image
    }

    pub fn new(post_id: String, user_name: String, image: Picture) -> (post: InstaPost)
        ensures
            post.id() == post_id@,
            post.user() == user_name@,
            post.image() == image,
    {
        InstaPost { post_id, user_name, image }
    }

    pub fn get_id(&self) -> (id: &String)
        ensures
            id@ == self.id(),
    {
        &self.post_id
    }

    pub fn get_id_str(&self) -> (id: &str)
        ensures
            id@ == self.id(),
    {
        self.post_id.as_str()
    }

    pub fn get_username(&self) -> (name: &str)
        ensures
            name@ == self.user(),
    {
        self.user_name.as_str()
    }

    pub fn get_image(&self) -> (image: &Picture)
        ensures
            *image == self.image(),
    {
        &self.image
    }

    /// Identifier and author, copied out.
    pub fn info(&self) -> (info: InstaPostInfo)
        ensures
            info.post_id@ == self.id(),
            info.user_name@ == self.user(),
    {
        InstaPostInfo { post_id: self.post_id.clone(), user_name: self.user_name.clone() }
    }
}

} // verus!
