use vstd::prelude::*;
use vstd::string::StringExecFns;

verus! {

/// The mathematical value of an [`Author`]: the two field contents as
/// character sequences.
pub ghost struct AuthorView {
    pub name: Seq<char>,
    pub email: Seq<char>,
}

/// A stored identity: a display name together with an e-mail address.
/// Either field may be empty; no syntactic validation is performed.
#[derive(Debug)]
pub struct Author {
    pub name: String,
    pub email: String,
}

impl View for Author {
    type V = AuthorView;

    open spec fn view(&self) -> AuthorView {
        AuthorView { name: self.name@, email: self.email@ }
    }
}

impl Author {
    /// The indented name line shown for an identity.
    pub fn name_line(&self) -> (r: String)
        ensures
            r@ == "     name: '"@ + self@.name + "'"@,
    {
        let mut s = String::from_str("     name: '");
        s.append(self.name.as_str());
        s.append("'");
        proof {
            assert(s@ =~= "     name: '"@ + self@.name + "'"@);
        }
        s
    }

    /// The indented mail line shown for an identity.
    pub fn mail_line(&self) -> (r: String)
        ensures
            r@ == "     mail: '"@ + self@.email + "'"@,
    {
        let mut s = String::from_str("     mail: '");
        s.append(self.email.as_str());
        s.append("'");
        proof {
            assert(s@ =~= "     mail: '"@ + self@.email + "'"@);
        }
        s
    }

    /// The two-line display form of an identity.
    pub fn display(&self) -> (r: String)
        ensures
            r@ == "name  -> '"@ + self@.name + "'\nemail -> '"@ + self@.email + "'"@,
    {
        let mut s = String::from_str("name  -> '");
        s.append(self.name.as_str());
        s.append("'\nemail -> '");
        s.append(self.email.as_str());
        s.append("'");
        proof {
            assert(s@ =~= "name  -> '"@ + self@.name + "'\nemail -> '"@ + self@.email + "'"@);
        }
        s
    }
}

impl Clone for Author {
    fn clone(&self) -> (r: Self)
        ensures
            r@ == self@,
    {
        Author { name: self.name.clone(), email: self.email.clone() }
    }
}

} // verus!
