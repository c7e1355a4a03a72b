pub mod port;
pub mod routes;
