//! Content collectors: the collected-item record, the Bilibili and
//! Xiaohongshu collectors' decisions, and the WeChat file importer's parsing.

pub mod items;
pub mod wechat;
pub mod xhs;
pub mod xhs_feed;
pub mod xhs_paging;
pub mod xhs_profile;

pub use items::{BiliCollector, CollectWindow, CollectedItem, Collector};
pub use wechat::{
    parse_wechat_files, WechatImportError, WechatImportParsed, WechatImportSummary,
    WechatImportedItem,
};
pub use xhs::XhsCollector;
