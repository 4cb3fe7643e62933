use vstd::prelude::*;

verus! {

/// An icon of the application, known by its resource name.
#[derive(PartialEq, Eq, Debug, Clone)]
pub struct Icon(&'static str);

impl View for Icon {
    type V = Seq<char>;

    closed spec fn view(&self) -> Seq<char> {
        self.0@
    }
}

#[allow(non_snake_case)]
impl Icon {
    /// The name under which the icon is registered in the resources.
    pub fn name(&self) -> (r: &'static str)
        ensures
            r@ == self@,
    {
        self.0
    }

    pub fn REPORTING() -> (r: Icon)
        ensures
            r@ == "reporting"@,
    {
        Icon("reporting")
    }

    pub fn HTTP() -> (r: Icon)
        ensures
            r@ == "http"@,
    {
        Icon("http")
    }

    pub fn WINDOWS() -> (r: Icon)
        ensures
            r@ == "windows"@,
    {
        Icon("windows")
    }

    pub fn SERVER() -> (r: Icon)
        ensures
            r@ == "server"@,
    {
        Icon("server")
    }

    pub fn DATABASE() -> (r: Icon)
        ensures
            r@ == "database"@,
    {
        Icon("database")
    }

    pub fn MONITORING() -> (r: Icon)
        ensures
            r@ == "monitoring"@,
    {
        Icon("monitoring")
    }

    pub fn NOTE() -> (r: Icon)
        ensures
            r@ == "clipboard"@,
    {
        Icon("clipboard")
    }

    pub fn POINT_OF_INTEREST() -> (r: Icon)
        ensures
            r@ == "cube"@,
    {
        Icon("cube")
    }

    pub fn SERVER_LINK() -> (r: Icon)
        ensures
            r@ == "link"@,
    {
        Icon("link")
    }

    pub fn USER() -> (r: Icon)
        ensures
            r@ == "user"@,
    {
        Icon("user")
    }

    pub fn LOG_FILE() -> (r: Icon)
        ensures
            r@ == "log-file"@,
    {
        Icon("log-file")
    }

    pub fn CONFIG_FILE() -> (r: Icon)
        ensures
            r@ == "config-file"@,
    {
        Icon("config-file")
    }

    pub fn COG() -> (r: Icon)
        ensures
            r@ == "cog"@,
    {
        Icon("cog")
    }

    pub fn FOLDER_PLUS() -> (r: Icon)
        ensures
            r@ == "folder-plus"@,
    {
        Icon("folder-plus")
    }

    pub fn ARCHIVE() -> (r: Icon)
        ensures
            r@ == "archive"@,
    {
        Icon("archive")
    }

    pub fn SSH() -> (r: Icon)
        ensures
            r@ == "ssh"@,
    {
        Icon("ssh")
    }

    pub fn TERMINAL() -> (r: Icon)
        ensures
            r@ == "terminal"@,
    {
        Icon("terminal")
    }
}

} // verus!
