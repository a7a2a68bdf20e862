pub mod file;
pub mod redir;
pub mod routes;
pub mod text;
pub mod uri;
pub mod util;
