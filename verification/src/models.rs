//! Sample domain model used by the refactoring examples.

use vstd::prelude::*;
use vstd::string::StringExecFns;

verus! {

/// A user account.
pub struct User {
    pub id: u64,
    pub name: String,
    pub email: String,
}

impl User {
    /// The text that `display` produces for a user with the given name and
    /// e-mail address: `name (email)`.
    pub open spec fn display_text(name: Seq<char>, email: Seq<char>) -> Seq<char> {
        name + " ("@ + email + ")"@
    }

    pub fn new(id: u64, name: String, email: String) -> (user: Self)
        ensures
            user.id == id,
            user.name == name,
            user.email == email,
    {
        User { id, name, email }
    }

    pub fn display(&self) -> (text: String)
        ensures
            text@ == Self::display_text(self.name@, self.email@),
    {
        let mut text = self.name.clone();
        text.append(" (");
        text.append(self.email.as_str());
        text.append(")");
        text
    }

    pub fn update_email(&mut self, new_email: String)
        ensures
            final(self).email == new_email,
            final(self).id == old(self).id,
            final(self).name == old(self).name,
    {
        self.email = new_email;
    }
}

} // verus!
