pub mod catalog;
pub mod download;
pub mod grants;
pub mod history;
pub mod media;
pub mod mp3;
pub mod paths;
pub mod quality;
pub mod registry;
pub mod resolve;
pub mod response;
pub mod session;
pub mod settings;
pub mod tags;
pub mod text;
pub mod track;
pub mod urls;
